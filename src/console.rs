//! Where the type declarations of the console module are found.
use vstd::prelude::*;
use vstd::string::{StrSliceExecFns, StringExecFns};

verus! {

/// The file that holds the console module's type declarations.
pub const DECLARATION_FILE: &'static str = "lib.deno_console.d.ts";

/// `dir` joined with the relative path `name`: a separator goes between them
/// unless `dir` is empty or already ends with one.
pub open spec fn join_path(dir: Seq<char>, name: Seq<char>) -> Seq<char> {
    if dir.len() == 0 {
        name
    } else if dir.last() == '/' {
        dir + name
    } else {
        dir + seq!['/'] + name
    }
}

/// The path of the type declarations of the console module, whose sources lie
/// in `source_dir`.
pub fn get_declaration(source_dir: &str) -> (r: String)
    ensures
        r@ == join_path(source_dir@, DECLARATION_FILE@),
{
    proof {
        reveal_strlit("/");
    }
    let n = source_dir.unicode_len();
    if n == 0 {
        return String::from_str(DECLARATION_FILE);
    }
    let dir = String::from_str(source_dir);
    if source_dir.get_char(n - 1) == '/' {
        dir.concat(DECLARATION_FILE)
    } else {
        dir.concat("/").concat(DECLARATION_FILE)
    }
}

} // verus!
