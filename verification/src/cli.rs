//! The command line program's own decisions: which input files it accepts
//! and where the generated files go.
use crate::text::{copy_str, eq_str, chars_of, push_str};
use std::path::Path;
use vstd::prelude::*;

pub use crate::code_gen::circom_main_code::Instance;

verus! {

/// The extension of a path, as `Path::extension` gives it.
pub uninterp spec fn path_extension(p: Seq<char>) -> Option<Seq<char>>;

/// The parent of a path, as `Path::parent` gives it.
pub uninterp spec fn path_parent(p: Seq<char>) -> Option<Seq<char>>;

/// The file name of a path without its extension, as `Path::file_stem` gives it.
pub uninterp spec fn path_file_stem(p: Seq<char>) -> Option<Seq<char>>;

/// Calls `std::path::Path::extension` on `p`. Trusted: the result is
/// `path_extension` of the text, a function of it alone.
#[verifier::external_body]
fn extension_of(p: &str) -> (r: Option<String>)
    ensures
        match r {
            Some(e) => path_extension(p@) == Some(e@),
            None => path_extension(p@) is None,
        },
{
    Path::new(p).extension().and_then(|e| e.to_str()).map(|e| e.to_string())
}

/// Calls `std::path::Path::parent` on `p`. Trusted: the result is
/// `path_parent` of the text, a function of it alone.
#[verifier::external_body]
fn parent_of(p: &str) -> (r: Option<String>)
    ensures
        match r {
            Some(e) => path_parent(p@) == Some(e@),
            None => path_parent(p@) is None,
        },
{
    Path::new(p).parent().and_then(|e| e.to_str()).map(|e| e.to_string())
}

/// Calls `std::path::Path::file_stem` on `p`. Trusted: the result is
/// `path_file_stem` of the text, a function of it alone.
#[verifier::external_body]
fn file_stem_of(p: &str) -> (r: Option<String>)
    ensures
        match r {
            Some(e) => path_file_stem(p@) == Some(e@),
            None => path_file_stem(p@) is None,
        },
{
    Path::new(p).file_stem().and_then(|e| e.to_str()).map(|e| e.to_string())
}

pub open spec fn suffix_error() -> Seq<char> {
    "The file does not have a .light suffix"@
}

/// Splits the path of a `.light` file into its directory and its name
/// without the suffix; any other path is refused.
pub fn remove_filename_suffix(input: &str) -> (r: Result<(String, String), &'static str>)
    ensures
        path_extension(input@) != Some("light"@) ==> (r matches Err(e) && e@ == suffix_error()),
        path_extension(input@) == Some("light"@) ==> (r matches Ok((dir, name)) && dir@ == (match path_parent(input@) {
            Some(p) => p,
            None => input@,
        }) && name@ == (match path_file_stem(input@) {
            Some(f) => f,
            None => seq![],
        })),
{
    let is_light = match extension_of(input) {
        Some(e) => eq_str(&chars_of(e.as_str()), "light"),
        None => false,
    };
    if !is_light {
        return Err("The file does not have a .light suffix");
    }
    let directory = match parent_of(input) {
        Some(p) => p,
        None => copy_str(input),
    };
    let filename_without_suffix = match file_stem_of(input) {
        Some(f) => f,
        None => String::new(),
    };
    Ok((directory, filename_without_suffix))
}

/// The path of a circuit file: `<dir>/<name>.circom`.
pub open spec fn circuit_path(dir: Seq<char>, file_name: Seq<char>) -> Seq<char> {
    dir + "/"@ + file_name + ".circom"@
}

/// The path of the generated accounts of a program.
pub open spec fn accounts_path(program_name: Seq<char>) -> Seq<char> {
    "./programs/"@ + program_name + "/src/auto_generated_accounts.rs"@
}

/// The files to write, each with its path and contents, in the order they
/// are written: the main circuit, the circuit, and the generated accounts.
/// The two circuits go to the same path, so the second one is what stays.
pub fn create_files(
    circom_main_code: String,
    circom_code: String,
    rust_autogenerated_accounts_code: String,
    path_to_parent_dir: String,
    file_name: String,
    program_name: String,
) -> (r: Vec<(String, String)>)
    ensures
        r@.len() == 3,
        r@[0].0@ == circuit_path(path_to_parent_dir@, file_name@),
        r@[0].1@ == circom_main_code@,
        r@[1].0@ == circuit_path(path_to_parent_dir@, file_name@),
        r@[1].1@ == circom_code@,
        r@[2].0@ == accounts_path(program_name@),
        r@[2].1@ == rust_autogenerated_accounts_code@,
{
    let mut main_path = copy_str(path_to_parent_dir.as_str());
    push_str(&mut main_path, "/");
    push_str(&mut main_path, file_name.as_str());
    push_str(&mut main_path, ".circom");
    let circuit_path = main_path.clone();
    let mut accounts = copy_str("./programs/");
    push_str(&mut accounts, program_name.as_str());
    push_str(&mut accounts, "/src/auto_generated_accounts.rs");
    let mut r = Vec::new();
    r.push((main_path, circom_main_code));
    r.push((circuit_path, circom_code));
    r.push((accounts, rust_autogenerated_accounts_code));
    r
}

} // verus!
