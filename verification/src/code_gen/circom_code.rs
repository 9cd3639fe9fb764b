//! The circuit of a light transaction: the lines of the source with the
//! `#[lightTransaction(...)]` attribute removed and the template header
//! extended by the protocol's parameters and code.
use crate::code_gen::circom_main_code::{Instance, InstanceView};
use crate::code_gen::connecting_hash_circom_template::CONNECTING_HASH_VERIFIER_TWO;
use crate::errors::{result_view, ErrorView, MacroCircomError};
use crate::text::{
    chars_of, copy_str, find, find_str, occurs_at, join, join_lines, lines, lines_of, push_str, seqs_of,
    starts_with, starts_with_str, string_of, sub_vec, trim, trim_chars, CharClass,
};
use vstd::prelude::*;

verus! {

/// The parameters a light transaction template takes after its own.
pub const LIGHT_TRANSACTION_PARAMETERS: &'static str = " nAppUtxos, levels, nIns, nOuts, feeAsset, indexFeeAsset, indexPublicAsset, nAssets, nInAssets, nOutAssets";

// ------------------------------------------------------------------
// Pieces of a line
// ------------------------------------------------------------------
/// Where the verifier name of a `lightTransaction(...)` line starts and ends.
pub open spec fn verifier_bounds(input: Seq<char>) -> (int, int) {
    (find(input, "lightTransaction("@).unwrap() + "lightTransaction("@.len(), find(input, ")"@).unwrap())
}

pub open spec fn has_verifier(input: Seq<char>) -> bool {
    find(input, "lightTransaction("@) is Some && find(input, ")"@) is Some && verifier_bounds(input).0
        <= verifier_bounds(input).1
}

/// The text between `lightTransaction(` and the first `)`.
pub open spec fn verifier_of(input: Seq<char>) -> Seq<char> {
    input.subrange(verifier_bounds(input).0, verifier_bounds(input).1)
}

pub fn extract_verifier(input: &str) -> (r: &str)
    requires
        has_verifier(input@),
    ensures
        r@ == verifier_of(input@),
{
    let v = chars_of(input);
    let p = chars_of("lightTransaction(");
    proof {
        crate::text::lemma_find_from_bounds(v@, p@, 0);
        crate::text::lemma_find_from_bounds(v@, ")"@, 0);
    }
    let start = crate::text::find_vec(&v, &p).unwrap() + p.len();
    let end = find_str(&v, ")").unwrap();
    input.substring_char(start, end)
}

/// The name between `template ` and the first `(`, trimmed; `None` when the
/// line holds either of them not.
pub open spec fn template_name_of(input: Seq<char>) -> Option<Seq<char>> {
    match (find(input, "template "@), find(input, "("@)) {
        (Some(s), Some(e)) => Some(trim(CharClass::WhiteSpace, input.subrange(s + "template "@.len(), e))),
        _ => None,
    }
}

/// The lines whose template name can be read: the name does not start after
/// the `(`.
pub open spec fn template_name_defined(input: Seq<char>) -> bool {
    match (find(input, "template "@), find(input, "("@)) {
        (Some(s), Some(e)) => s + "template "@.len() <= e,
        _ => true,
    }
}

pub fn extract_template_name(input: &str) -> (r: Option<String>)
    requires
        template_name_defined(input@),
    ensures
        match r {
            Some(n) => template_name_of(input@) == Some(n@),
            None => template_name_of(input@) is None,
        },
{
    let v = chars_of(input);
    let p = chars_of("template ");
    proof {
        crate::text::lemma_find_from_bounds(v@, p@, 0);
    }
    let start = match crate::text::find_vec(&v, &p) {
        Some(s) => s + p.len(),
        None => {
            return None;
        },
    };
    let end = match find_str(&v, "(") {
        Some(e) => e,
        None => {
            return None;
        },
    };
    proof {
        crate::text::lemma_find_from_bounds(v@, "("@, 0);
    }
    let name = trim_chars(CharClass::WhiteSpace, &sub_vec(&v, start, end));
    Some(string_of(name.as_slice()))
}

/// The line with `to_insert` placed just before its first `)`.
pub open spec fn inserted_before_parenthesis(input: Seq<char>, to_insert: Seq<char>) -> Seq<char> {
    let k = find(input, ")"@).unwrap();
    input.subrange(0, k) + to_insert + input.subrange(k, input.len() as int)
}

pub fn insert_string_before_parenthesis(input: &str, to_insert: &str) -> (r: String)
    requires
        find(input@, ")"@) is Some,
    ensures
        r@ == inserted_before_parenthesis(input@, to_insert@),
{
    let v = chars_of(input);
    let k = find_str(&v, ")").unwrap();
    proof {
        crate::text::lemma_find_from_bounds(v@, ")"@, 0);
    }
    let mut r = string_of(sub_vec(&v, 0, k).as_slice());
    push_str(&mut r, to_insert);
    let rest = sub_vec(&v, k, v.len());
    crate::text::push_chars(&mut r, &rest);
    r
}

// ------------------------------------------------------------------
// The whole circuit
// ------------------------------------------------------------------
/// Where a scan of the source for the light transaction stands.
pub struct PspState {
    /// The attribute has been seen and its template header not yet.
    pub awaiting_template: bool,
    /// The attribute has been seen.
    pub found: bool,
    pub verifier: Seq<char>,
    pub lines: Seq<Seq<char>>,
    pub template_name: Option<Seq<char>>,
}

/// What goes before the parameters inserted into the template header: a
/// comma when the instance has configuration arguments.
pub open spec fn parameter_separator(i: InstanceView) -> Seq<char> {
    if i.config is None || i.config.unwrap().len() == 0 {
        ""@
    } else {
        ","@
    }
}

/// The scan after one more line: the attribute line is dropped and names the
/// verifier; the lines before it are kept; after it, the lines up to the
/// template header are dropped, and the header is kept with the parameters
/// inserted, followed by the connecting code and the instruction hash code.
pub open spec fn psp_step(st: PspState, raw: Seq<char>, hash_code: Seq<char>, sep: Seq<char>) -> PspState {
    let line = trim(CharClass::WhiteSpace, raw);
    if starts_with(line, "#[lightTransaction"@) {
        PspState { found: true, verifier: verifier_of(line), awaiting_template: true, ..st }
    } else if !st.awaiting_template {
        PspState { lines: st.lines.push(line), ..st }
    } else if starts_with(line, "template"@) {
        PspState {
            template_name: template_name_of(line),
            lines: st.lines.push(
                inserted_before_parenthesis(line, sep + LIGHT_TRANSACTION_PARAMETERS@),
            ).push(CONNECTING_HASH_VERIFIER_TWO@).push(hash_code),
            awaiting_template: false,
            ..st
        }
    } else {
        st
    }
}

/// The lines the scan can take in a given state: one attribute only, with a
/// verifier name, and template headers with a `)` and a readable name.
pub open spec fn psp_step_defined(st: PspState, raw: Seq<char>) -> bool {
    let line = trim(CharClass::WhiteSpace, raw);
    if starts_with(line, "#[lightTransaction"@) {
        !st.found && has_verifier(line)
    } else if st.awaiting_template && starts_with(line, "template"@) {
        template_name_defined(line) && find(line, ")"@) is Some
    } else {
        true
    }
}

pub open spec fn psp_lines(st: PspState, ls: Seq<Seq<char>>, hash_code: Seq<char>, sep: Seq<char>) -> PspState
    decreases ls.len(),
{
    if ls.len() == 0 {
        st
    } else {
        psp_lines(psp_step(st, ls[0], hash_code, sep), ls.drop_first(), hash_code, sep)
    }
}

pub open spec fn psp_lines_defined(st: PspState, ls: Seq<Seq<char>>, hash_code: Seq<char>, sep: Seq<char>) -> bool
    decreases ls.len(),
{
    ls.len() == 0 || (psp_step_defined(st, ls[0]) && psp_lines_defined(
        psp_step(st, ls[0], hash_code, sep),
        ls.drop_first(),
        hash_code,
        sep,
    ))
}

pub open spec fn psp_start(i: InstanceView) -> PspState {
    PspState {
        awaiting_template: false,
        found: false,
        verifier: seq![],
        lines: seq![],
        template_name: i.template_name,
    }
}

/// The scan of a whole source.
pub open spec fn psp_scan(input: Seq<char>, hash_code: Seq<char>, i: InstanceView) -> PspState {
    psp_lines(psp_start(i), lines(input), hash_code, parameter_separator(i))
}

/// A template header reached after the attribute gets the protocol's
/// parameters inserted before its `)`, preceded by a comma only when the
/// instance has configuration arguments, and is followed by the connecting
/// code and the instruction hash code.
pub proof fn lemma_header_gets_parameters(st: PspState, raw: Seq<char>, hash_code: Seq<char>, i: InstanceView)
    requires
        st.awaiting_template,
        starts_with(trim(CharClass::WhiteSpace, raw), "template"@),
    ensures
        psp_step(st, raw, hash_code, parameter_separator(i)).lines == st.lines.push(
            inserted_before_parenthesis(
                trim(CharClass::WhiteSpace, raw),
                if i.config is Some && i.config.unwrap().len() > 0 {
                    ","@ + LIGHT_TRANSACTION_PARAMETERS@
                } else {
                    LIGHT_TRANSACTION_PARAMETERS@
                },
            ),
        ).push(CONNECTING_HASH_VERIFIER_TWO@).push(hash_code),
{
    let line = trim(CharClass::WhiteSpace, raw);
    reveal_strlit("template");
    reveal_strlit("#[lightTransaction");
    reveal_strlit("");
    assert(line.subrange(0, 8) =~= "template"@);
    assert(line[0] == line.subrange(0, 8)[0]);
    assert(line[0] == 't');
    assert(!starts_with(line, "#[lightTransaction"@)) by {
        if starts_with(line, "#[lightTransaction"@) {
            assert(line.subrange(0, 18) =~= "#[lightTransaction"@);
            assert(line[0] == line.subrange(0, 18)[0]);
        }
    }
    assert(""@ + LIGHT_TRANSACTION_PARAMETERS@ =~= LIGHT_TRANSACTION_PARAMETERS@);
}

/// An instance without configuration is read as one with an empty
/// configuration: the circuit built from a source is the same for both.
pub proof fn lemma_no_config_is_empty_config(input: Seq<char>, hash_code: Seq<char>, i: InstanceView)
    requires
        i.config is None,
    ensures
        psp_scan(input, hash_code, i) == psp_scan(
            input,
            hash_code,
            InstanceView { config: Some(Seq::<Seq<char>>::empty()), ..i },
        ),
{
}

/// Builds the circuit of the light transaction in `input` and records its
/// template name in the instance. Fails, with the instance unchanged, when
/// the source has no `#[lightTransaction(...)]` line.
pub fn generate_psp_circom_code(
    input: &String,
    instruction_hash_code: &String,
    instance: &mut Instance,
) -> (r: Result<(String, String), MacroCircomError>)
    requires
        psp_lines_defined(
            psp_start(old(instance)@),
            lines(input@),
            instruction_hash_code@,
            parameter_separator(old(instance)@),
        ),
    ensures
        ({
            let st = psp_scan(input@, instruction_hash_code@, old(instance)@);
            if !st.found {
                result_view(r) == Err::<(String, String), ErrorView>(
                    ErrorView::LightTransactionUndefined,
                ) && final(instance)@ == old(instance)@
            } else {
                r matches Ok((verifier, code)) && verifier@ == st.verifier && code@ == join(
                    st.lines,
                    "\n"@,
                ) && final(instance)@ == (InstanceView {
                    template_name: st.template_name,
                    ..old(instance)@
                })
            }
        }),
{
    let ghost sep_spec = parameter_separator(instance@);
    let separator = match &instance.config {
        Some(c) => {
            if c.len() == 0 {
                ""
            } else {
                ","
            }
        },
        None => "",
    };
    let to_insert = {
        let mut t = copy_str(separator);
        push_str(&mut t, LIGHT_TRANSACTION_PARAMETERS);
        t
    };
    assert(to_insert@ == sep_spec + LIGHT_TRANSACTION_PARAMETERS@);
    let iv = chars_of(input.as_str());
    let ls = lines_of(&iv);
    let ghost all = seqs_of(ls@);
    let mut awaiting_template = false;
    let mut found = false;
    let mut verifier = String::new();
    let mut out: Vec<Vec<char>> = Vec::new();
    let ghost start = instance@;
    let mut i: usize = 0;
    assert(all.subrange(0, all.len() as int) =~= all);
    assert(seqs_of(out@) =~= Seq::<Seq<char>>::empty());
    while i < ls.len()
        invariant
            i <= ls@.len(),
            all == seqs_of(ls@),
            all == lines(input@),
            start == old(instance)@,
            sep_spec == parameter_separator(start),
            to_insert@ == sep_spec + LIGHT_TRANSACTION_PARAMETERS@,
            instance@ == (InstanceView { template_name: instance@.template_name, ..start }),
            psp_lines(
                PspState {
                    awaiting_template,
                    found,
                    verifier: verifier@,
                    lines: seqs_of(out@),
                    template_name: instance@.template_name,
                },
                all.subrange(i as int, all.len() as int),
                instruction_hash_code@,
                sep_spec,
            ) == psp_scan(input@, instruction_hash_code@, start),
            psp_lines_defined(
                PspState {
                    awaiting_template,
                    found,
                    verifier: verifier@,
                    lines: seqs_of(out@),
                    template_name: instance@.template_name,
                },
                all.subrange(i as int, all.len() as int),
                instruction_hash_code@,
                sep_spec,
            ),
            !found ==> instance@ == start,
            awaiting_template ==> found,
        decreases ls@.len() - i,
    {
        let ghost rest = all.subrange(i as int, all.len() as int);
        assert(rest[0] == ls@[i as int]@);
        assert(rest.drop_first() =~= all.subrange(i + 1, all.len() as int));
        let line = trim_chars(CharClass::WhiteSpace, &ls[i]);
        let ghost before = seqs_of(out@);
        if starts_with_str(&line, "#[lightTransaction") {
            found = true;
            let text = string_of(line.as_slice());
            verifier = copy_str(extract_verifier(text.as_str()));
            awaiting_template = true;
        } else if !awaiting_template {
            out.push(line);
            assert(seqs_of(out@) =~= before.push(trim(CharClass::WhiteSpace, rest[0])));
        } else if starts_with_str(&line, "template") {
            let text = string_of(line.as_slice());
            instance.template_name = extract_template_name(text.as_str());
            let header = insert_string_before_parenthesis(text.as_str(), to_insert.as_str());
            out.push(chars_of(header.as_str()));
            out.push(chars_of(CONNECTING_HASH_VERIFIER_TWO));
            out.push(chars_of(instruction_hash_code.as_str()));
            awaiting_template = false;
            assert(seqs_of(out@) =~= before.push(
                inserted_before_parenthesis(trim(CharClass::WhiteSpace, rest[0]), to_insert@),
            ).push(CONNECTING_HASH_VERIFIER_TWO@).push(instruction_hash_code@));
        }
        i += 1;
    }
    assert(all.subrange(i as int, all.len() as int) =~= Seq::<Seq<char>>::empty());
    if !found {
        return Err(MacroCircomError::LightTransactionUndefined);
    }
    let code = join_lines(&out, "\n");
    Ok((verifier, code))
}


fn has_verifier_exec(line: &Vec<char>) -> (r: bool)
    ensures
        r == has_verifier(line@),
{
    let p = chars_of("lightTransaction(");
    proof {
        crate::text::lemma_find_from_bounds(line@, p@, 0);
    }
    let a = crate::text::find_vec(line, &p);
    let b = find_str(line, ")");
    match (a, b) {
        (Some(s), Some(e)) => {
            assert(occurs_at(line@, p@, s as int));
            let n = line.len();
            assert(s + p@.len() <= n);
            s + p.len() <= e
        },
        _ => false,
    }
}

fn template_name_defined_exec(line: &Vec<char>) -> (r: bool)
    ensures
        r == template_name_defined(line@),
{
    let p = chars_of("template ");
    proof {
        crate::text::lemma_find_from_bounds(line@, p@, 0);
    }
    let a = crate::text::find_vec(line, &p);
    let b = find_str(line, "(");
    match (a, b) {
        (Some(s), Some(e)) => {
            assert(occurs_at(line@, p@, s as int));
            let n = line.len();
            assert(s + p@.len() <= n);
            s + p.len() <= e
        },
        _ => true,
    }
}

/// Whether `generate_psp_circom_code` can read the source: it has at most
/// one `#[lightTransaction(...)]` line, that line names a verifier, and the
/// template header after it has a `)` and a readable name.
pub fn light_transaction_readable(input: &String, instruction_hash_code: &String, instance: &Instance) -> (r: bool)
    ensures
        r == psp_lines_defined(
            psp_start(instance@),
            lines(input@),
            instruction_hash_code@,
            parameter_separator(instance@),
        ),
{
    let ghost sep = parameter_separator(instance@);
    let iv = chars_of(input.as_str());
    let ls = lines_of(&iv);
    let ghost all = seqs_of(ls@);
    let ghost mut st = psp_start(instance@);
    let mut found = false;
    let mut awaiting_template = false;
    let mut i: usize = 0;
    assert(all.subrange(0, all.len() as int) =~= all);
    while i < ls.len()
        invariant
            i <= ls@.len(),
            all == seqs_of(ls@),
            all == lines(input@),
            st.found == found,
            st.awaiting_template == awaiting_template,
            sep == parameter_separator(instance@),
            psp_lines_defined(st, all.subrange(i as int, all.len() as int), instruction_hash_code@, sep)
                == psp_lines_defined(psp_start(instance@), all, instruction_hash_code@, sep),
        decreases ls@.len() - i,
    {
        let ghost rest = all.subrange(i as int, all.len() as int);
        assert(rest[0] == ls@[i as int]@);
        assert(rest.drop_first() =~= all.subrange(i + 1, all.len() as int));
        let line = trim_chars(CharClass::WhiteSpace, &ls[i]);
        if starts_with_str(&line, "#[lightTransaction") {
            if found || !has_verifier_exec(&line) {
                assert(!psp_step_defined(st, rest[0]));
                return false;
            }
            found = true;
            awaiting_template = true;
        } else if awaiting_template && starts_with_str(&line, "template") {
            if !template_name_defined_exec(&line) || find_str(&line, ")").is_none() {
                assert(!psp_step_defined(st, rest[0]));
                return false;
            }
            awaiting_template = false;
        }
        proof {
            st = psp_step(st, rest[0], instruction_hash_code@, sep);
        }
        i += 1;
    }
    true
}

} // verus!
