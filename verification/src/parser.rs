//! The parts of reading a circom program that decide: compiler version
//! checks, the version number format, and the search for an included file
//! among the library directories.
use crate::text::{chars_of, copy_str, decimal, parse_unsigned, push_decimal, push_str, string_of, sub_vec};
use vstd::prelude::*;

pub use crate::check_utxo::Comparator;
pub use crate::code_gen::check_utxo_code::CheckUtxo;
pub use crate::code_gen::circom_main_code::Instance;

verus! {

pub type Version = (usize, usize, usize);

// ------------------------------------------------------------------
// Version numbers
// ------------------------------------------------------------------
pub open spec fn pieces_from(s: Seq<char>, cur: Seq<char>) -> Seq<Seq<char>>
    decreases s.len(),
{
    if s.len() == 0 {
        seq![cur]
    } else if s[0] == '.' {
        seq![cur] + pieces_from(s.drop_first(), seq![])
    } else {
        pieces_from(s.drop_first(), cur.push(s[0]))
    }
}

/// The pieces of a text between its dots, as `str::split(".")` yields them.
pub open spec fn dot_pieces(s: Seq<char>) -> Seq<Seq<char>> {
    pieces_from(s, seq![])
}

/// The version texts that can be read: three dot-separated numbers that fit
/// in a `usize` (more pieces may follow and are ignored).
pub open spec fn version_text_valid(s: Seq<char>) -> bool {
    let p = dot_pieces(s);
    p.len() >= 3 && parse_unsigned(p[0], usize::MAX as nat) is Some && parse_unsigned(
        p[1],
        usize::MAX as nat,
    ) is Some && parse_unsigned(p[2], usize::MAX as nat) is Some
}

pub open spec fn version_of(s: Seq<char>) -> (nat, nat, nat) {
    let p = dot_pieces(s);
    (
        parse_unsigned(p[0], usize::MAX as nat).unwrap(),
        parse_unsigned(p[1], usize::MAX as nat).unwrap(),
        parse_unsigned(p[2], usize::MAX as nat).unwrap(),
    )
}

fn dot_pieces_of(s: &Vec<char>) -> (r: Vec<Vec<char>>)
    ensures
        crate::text::seqs_of(r@) == dot_pieces(s@),
{
    let n = s.len();
    let mut r: Vec<Vec<char>> = Vec::new();
    let mut cur: Vec<char> = Vec::new();
    let mut i: usize = 0;
    assert(s@.subrange(0, n as int) =~= s@);
    assert(crate::text::seqs_of(r@) =~= Seq::<Seq<char>>::empty());
    while i < n
        invariant
            n == s@.len(),
            i <= n,
            crate::text::seqs_of(r@) + pieces_from(s@.subrange(i as int, n as int), cur@)
                == dot_pieces(s@),
        decreases n - i,
    {
        let ghost rest = s@.subrange(i as int, n as int);
        assert(rest.drop_first() =~= s@.subrange(i + 1, n as int));
        assert(rest[0] == s@[i as int]);
        if s[i] == '.' {
            let ghost before = crate::text::seqs_of(r@);
            r.push(cur);
            assert(crate::text::seqs_of(r@) =~= before.push(cur@));
            assert(before + (seq![cur@] + pieces_from(rest.drop_first(), seq![])) =~= before.push(
                cur@,
            ) + pieces_from(rest.drop_first(), seq![]));
            cur = Vec::new();
        } else {
            cur.push(s[i]);
        }
        i += 1;
    }
    assert(s@.subrange(n as int, n as int) =~= Seq::<char>::empty());
    let ghost before = crate::text::seqs_of(r@);
    r.push(cur);
    assert(crate::text::seqs_of(r@) =~= before + pieces_from(Seq::<char>::empty(), cur@));
    r
}

fn parse_usize(s: &Vec<char>) -> (r: Option<usize>)
    ensures
        match r {
            Some(v) => parse_unsigned(s@, usize::MAX as nat) == Some(v as nat),
            None => parse_unsigned(s@, usize::MAX as nat) is None,
        },
{
    match crate::text::parse_u64(s) {
        Some(v) => {
            if v <= usize::MAX as u64 {
                Some(v as usize)
            } else {
                None
            }
        },
        None => None,
    }
}

/// Reads a version such as `2.1.4`.
pub fn parse_number_version(version: &str) -> (r: Version)
    requires
        version_text_valid(version@),
    ensures
        (r.0 as nat, r.1 as nat, r.2 as nat) == version_of(version@),
{
    let v = chars_of(version);
    let pieces = dot_pieces_of(&v);
    assert(crate::text::seqs_of(pieces@)[0] == pieces@[0]@);
    assert(crate::text::seqs_of(pieces@)[1] == pieces@[1]@);
    assert(crate::text::seqs_of(pieces@)[2] == pieces@[2]@);
    let a = parse_usize(&pieces[0]).unwrap();
    let b = parse_usize(&pieces[1]).unwrap();
    let c = parse_usize(&pieces[2]).unwrap();
    (a, b, c)
}

/// The text of a version, with its numbers written in decimal.
pub open spec fn version_text(v: (nat, nat, nat)) -> Seq<char> {
    decimal(v.0) + "."@ + decimal(v.1) + "."@ + decimal(v.2)
}

proof fn lemma_pieces_without_dot(s: Seq<char>, cur: Seq<char>, rest: Seq<char>)
    requires
        !s.contains('.'),
        rest.len() == 0 || rest[0] == '.',
    ensures
        pieces_from(s + rest, cur) == pieces_from(rest, cur + s),
    decreases s.len(),
{
    if s.len() > 0 {
        assert((s + rest)[0] == s[0]);
        assert((s + rest).drop_first() =~= s.drop_first() + rest);
        assert(!s.drop_first().contains('.')) by {
            if s.drop_first().contains('.') {
                let k = choose|k: int| 0 <= k < s.drop_first().len() && s.drop_first()[k] == '.';
                assert(s[k + 1] == '.');
            }
        }
        lemma_pieces_without_dot(s.drop_first(), cur.push(s[0]), rest);
        assert(cur.push(s[0]) + s.drop_first() =~= cur + s);
    } else {
        assert(s + rest =~= rest);
        assert(cur + s =~= cur);
    }
}

proof fn lemma_decimal_has_no_dot(n: nat)
    ensures
        !decimal(n).contains('.'),
{
    crate::text::lemma_decimal_roundtrip(n);
    if decimal(n).contains('.') {
        let k = choose|k: int| 0 <= k < decimal(n).len() && decimal(n)[k] == '.';
        assert(crate::text::is_ascii_digit(decimal(n)[k]));
    }
}

/// A version written with `version_text` is read back as the same version.
pub proof fn lemma_version_roundtrip(v: (nat, nat, nat))
    requires
        v.0 <= usize::MAX,
        v.1 <= usize::MAX,
        v.2 <= usize::MAX,
    ensures
        version_text_valid(version_text(v)),
        version_of(version_text(v)) == v,
{
    reveal_strlit(".");
    let d0 = decimal(v.0);
    let d1 = decimal(v.1);
    let d2 = decimal(v.2);
    lemma_decimal_has_no_dot(v.0);
    lemma_decimal_has_no_dot(v.1);
    lemma_decimal_has_no_dot(v.2);
    let dot = "."@;
    let r2 = dot + d2;
    let r1 = dot + d1 + r2;
    assert(version_text(v) =~= d0 + r1);
    lemma_pieces_without_dot(d0, seq![], r1);
    assert(r1[0] == '.');
    assert(r1.drop_first() =~= d1 + r2);
    assert(seq![] + d0 =~= d0);
    lemma_pieces_without_dot(d1, seq![], r2);
    assert(r2.drop_first() =~= d2 + Seq::<char>::empty());
    lemma_pieces_without_dot(d2, seq![], Seq::<char>::empty());
    assert(seq![] + d1 =~= d1);
    assert(seq![] + d2 =~= d2);
    let p = dot_pieces(version_text(v));
    assert(p =~= seq![d0, d1, d2]);
    crate::text::lemma_parse_decimal(v.0, usize::MAX as nat);
    crate::text::lemma_parse_decimal(v.1, usize::MAX as nat);
    crate::text::lemma_parse_decimal(v.2, usize::MAX as nat);
}

// ------------------------------------------------------------------
// Compiler versions
// ------------------------------------------------------------------
/// A problem found with the version a file requires.
#[derive(Debug, PartialEq, Eq)]
pub enum VersionReport {
    /// The file requires a version this compiler does not satisfy.
    CompilerVersionError { path: String, required_version: Version, version: Version },
    /// The file states no version.
    NoCompilerVersionWarning { path: String, version: Version },
    /// Custom templates need a newer version.
    CustomGatesVersionError { message: String },
}

/// A compiler satisfies a required version when the major numbers agree and
/// the compiler is not older in minor and patch.
pub open spec fn version_satisfied(required: Version, compiler: Version) -> bool {
    required.0 == compiler.0 && (required.1 < compiler.1 || (required.1 == compiler.1
        && required.2 <= compiler.2))
}

pub open spec fn is_no_version_warning(w: VersionReport, file_path: Seq<char>, v: Version) -> bool {
    w matches VersionReport::NoCompilerVersionWarning { path, version } && path@ == file_path
        && version == v
}

/// Checks the version a file requires against the compiler's. A file that
/// states none gets a warning.
pub fn check_number_version(
    file_path: String,
    version_file: Option<Version>,
    version_compiler: Version,
) -> (r: Result<Vec<VersionReport>, VersionReport>)
    ensures
        match version_file {
            Some(required) => if version_satisfied(required, version_compiler) {
                r matches Ok(w) && w@.len() == 0
            } else {
                r matches Err(VersionReport::CompilerVersionError { path, required_version, version })
                    && path@ == file_path@ && required_version == required && version
                    == version_compiler
            },
            None => r matches Ok(w) && w@.len() == 1 && is_no_version_warning(
                w@[0],
                file_path@,
                version_compiler,
            ),
        },
{
    match version_file {
        Some(required_version) => {
            if required_version.0 == version_compiler.0 && (required_version.1 < version_compiler.1
                || (required_version.1 == version_compiler.1 && required_version.2
                <= version_compiler.2)) {
                Ok(Vec::new())
            } else {
                Err(
                    VersionReport::CompilerVersionError {
                        path: file_path,
                        required_version,
                        version: version_compiler,
                    },
                )
            }
        },
        None => {
            let mut w = Vec::new();
            w.push(VersionReport::NoCompilerVersionWarning { path: file_path, version: version_compiler });
            Ok(w)
        },
    }
}

/// A compiler accepts a file that requires exactly its own version.
pub proof fn lemma_own_version_satisfied(v: Version)
    ensures
        version_satisfied(v, v),
{
}

/// A compiler that satisfies a requirement also satisfies any older
/// requirement with the same major number.
pub proof fn lemma_older_requirement_satisfied(required: Version, older: Version, compiler: Version)
    requires
        version_satisfied(required, compiler),
        older.0 == required.0,
        older.1 < required.1 || (older.1 == required.1 && older.2 <= required.2),
    ensures
        version_satisfied(older, compiler),
{
}

/// The first version that supports custom templates.
pub open spec fn custom_gates_version() -> Version {
    (2, 0, 6)
}

/// `a` comes before `b` in the order of versions.
pub open spec fn version_less(a: Version, b: Version) -> bool {
    a.0 < b.0 || (a.0 == b.0 && a.1 < b.1) || (a.0 == b.0 && a.1 == b.1 && a.2 < b.2)
}

/// A version as `{:?}` writes it: `(major, minor, patch)`.
pub open spec fn version_debug(v: Version) -> Seq<char> {
    "("@ + decimal(v.0 as nat) + ", "@ + decimal(v.1 as nat) + ", "@ + decimal(v.2 as nat) + ")"@
}

fn push_version(s: &mut String, v: Version)
    ensures
        final(s)@ == old(s)@ + version_debug(v),
{
    let ghost start = s@;
    push_str(s, "(");
    push_decimal(s, v.0 as u64);
    push_str(s, ", ");
    push_decimal(s, v.1 as u64);
    push_str(s, ", ");
    push_decimal(s, v.2 as u64);
    push_str(s, ")");
    assert(s@ =~= start + version_debug(v));
}

pub open spec fn required_too_old_message(path: Seq<char>, required: Version) -> Seq<char> {
    "File "@ + path + " requires at least version "@ + version_debug(custom_gates_version())
        + " to use custom templates (currently "@ + version_debug(required) + ")"@
}

pub open spec fn compiler_too_old_message(path: Seq<char>, compiler: Version) -> Seq<char> {
    "File "@ + path
        + " does not include pragma version and the compiler version (currently "@
        + version_debug(compiler) + ") should be at least "@ + version_debug(custom_gates_version())
        + " to use custom templates"@
}

/// Checks that custom templates are allowed: the version the file requires
/// (or, when it states none, the compiler's) is at least 2.0.6.
pub fn check_custom_gates_version(
    file_path: String,
    version_file: Option<Version>,
    version_compiler: Version,
) -> (r: Result<(), VersionReport>)
    ensures
        match version_file {
            Some(required) => if version_less(required, custom_gates_version()) {
                r matches Err(VersionReport::CustomGatesVersionError { message }) && message@
                    == required_too_old_message(file_path@, required)
            } else {
                r is Ok
            },
            None => if version_less(version_compiler, custom_gates_version()) {
                r matches Err(VersionReport::CustomGatesVersionError { message }) && message@
                    == compiler_too_old_message(file_path@, version_compiler)
            } else {
                r is Ok
            },
        },
{
    let custom_gates_version: Version = (2, 0, 6);
    match version_file {
        Some(required_version) => {
            if required_version.0 < custom_gates_version.0 || (required_version.0
                == custom_gates_version.0 && required_version.1 < custom_gates_version.1) || (
            required_version.0 == custom_gates_version.0 && required_version.1
                == custom_gates_version.1 && required_version.2 < custom_gates_version.2) {
                let mut message = copy_str("File ");
                push_str(&mut message, file_path.as_str());
                push_str(&mut message, " requires at least version ");
                push_version(&mut message, custom_gates_version);
                push_str(&mut message, " to use custom templates (currently ");
                push_version(&mut message, required_version);
                push_str(&mut message, ")");
                return Err(VersionReport::CustomGatesVersionError { message });
            }
        },
        None => {
            if version_compiler.0 < custom_gates_version.0 || (version_compiler.0
                == custom_gates_version.0 && version_compiler.1 < custom_gates_version.1) || (
            version_compiler.0 == custom_gates_version.0 && version_compiler.1
                == custom_gates_version.1 && version_compiler.2 < custom_gates_version.2) {
                let mut message = copy_str("File ");
                push_str(&mut message, file_path.as_str());
                push_str(
                    &mut message,
                    " does not include pragma version and the compiler version (currently ",
                );
                push_version(&mut message, version_compiler);
                push_str(&mut message, ") should be at least ");
                push_version(&mut message, custom_gates_version);
                push_str(&mut message, " to use custom templates");
                return Err(VersionReport::CustomGatesVersionError { message });
            }
        },
    }
    Ok(())
}


// ------------------------------------------------------------------
// Looking for an included file
// ------------------------------------------------------------------
/// The path of `file` inside `base`, as `Path::join` builds it.
pub uninterp spec fn joined_path(base: Seq<char>, file: Seq<char>) -> Seq<char>;

/// Calls `std::path::Path::join` on `base` and `file`. Trusted: the result
/// is `joined_path` of the two texts, a function of them alone.
#[verifier::external_body]
fn join_path(base: &str, file: &str) -> (r: String)
    ensures
        r@ == joined_path(base@, file@),
{
    std::path::Path::new(base).join(file).to_string_lossy().into_owned()
}

/// A search for a file among library directories, tried in order until one
/// of them holds the file.
pub struct FileSearch {
    pub found: bool,
    /// The path under which the file was read.
    pub path: String,
    /// The text of the file.
    pub src: String,
    /// The last candidate tried (at first, the file itself).
    pub crr_str_file: String,
    /// Why each candidate tried so far could not be read.
    pub reports: Vec<String>,
    /// The library directory to try next.
    pub index: usize,
}

impl FileSearch {
    pub fn new(crr_file: &str) -> (r: Self)
        ensures
            !r.found,
            r.path@ == Seq::<char>::empty(),
            r.src@ == Seq::<char>::empty(),
            r.crr_str_file@ == crr_file@,
            r.reports@.len() == 0,
            r.index == 0,
    {
        FileSearch {
            found: false,
            path: String::new(),
            src: String::new(),
            crr_str_file: copy_str(crr_file),
            reports: Vec::new(),
            index: 0,
        }
    }

    /// The next candidate to read: the file inside the next library
    /// directory, or `None` once the file is found or every directory tried.
    pub fn next_candidate(&self, libs: &Vec<String>, crr_file: &str) -> (r: Option<String>)
        ensures
            r is Some <==> !self.found && self.index < libs@.len(),
            r matches Some(c) ==> c@ == joined_path(libs@[self.index as int]@, crr_file@),
    {
        if !self.found && self.index < libs.len() {
            Some(join_path(libs[self.index].as_str(), crr_file))
        } else {
            None
        }
    }

    /// Records what reading `candidate` gave: its path and text, or a report
    /// of why it could not be read, after which the next directory is due.
    pub fn record(&mut self, candidate: String, outcome: Result<(String, String), String>)
        requires
            old(self).index < usize::MAX,
        ensures
            final(self).crr_str_file@ == candidate@,
            match outcome {
                Ok((p, src)) => final(self).found && final(self).path@ == p@ && final(self).src@
                    == src@ && final(self).index == old(self).index && final(self).reports@
                    == old(self).reports@,
                Err(report) => final(self).found == old(self).found && final(self).path@ == old(
                    self,
                ).path@ && final(self).src@ == old(self).src@ && final(self).index == old(self).index
                    + 1 && final(self).reports@ == old(self).reports@.push(report),
            },
    {
        self.crr_str_file = candidate;
        match outcome {
            Ok((p, src)) => {
                self.path = p;
                self.src = src;
                self.found = true;
            },
            Err(report) => {
                self.reports.push(report);
                self.index = self.index + 1;
            },
        }
    }
}

} // verus!
