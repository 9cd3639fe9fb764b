//! Check-utxo declarations, read line by line and expanded into circom code
//! piece by piece (signals, components, instruction hash, comparisons).
use crate::casing::{lower_camel_case, to_lower_camel_case, to_upper_camel_case, upper_camel_case};
use crate::errors::{result_view, ErrorView, MacroCircomError};
use crate::header::{header_captures, header_parts};
use crate::text::{
    chars_of, contains_seq, lemma_occurs_at_within, lemma_occurs_in_middle, occurs_at, occurs_in, contains_str, copy_str, decimal, ends_with,
    ends_with_str, eq_str, join, join_lines, lines, lines_of, parse_u64, parse_unsigned,
    push_decimal, push_str, seqs_of, starts_with, starts_with_str, starts_with_vec, string_of,
    strs_of, trim, trim_chars, words, words_of, CharClass,
};
use vstd::prelude::*;

verus! {

#[derive(PartialEq, Eq, Debug, Clone, Copy)]
pub enum Comparator {
    Equal,
    NotEqual,
    GreaterThan,
    LessThan,
    GreaterEqualThan,
    LessEqualThan,
}

impl Comparator {
    /// The operator that a comparator stands for.
    pub open spec fn symbol(self) -> Seq<char> {
        match self {
            Comparator::Equal => "=="@,
            Comparator::NotEqual => "!="@,
            Comparator::GreaterThan => ">"@,
            Comparator::LessThan => "<"@,
            Comparator::GreaterEqualThan => ">="@,
            Comparator::LessEqualThan => "<="@,
        }
    }

    pub fn as_str(&self) -> (r: &str)
        ensures
            r@ == self.symbol(),
    {
        match *self {
            Comparator::Equal => "==",
            Comparator::NotEqual => "!=",
            Comparator::GreaterThan => ">",
            Comparator::LessThan => "<",
            Comparator::GreaterEqualThan => ">=",
            Comparator::LessEqualThan => "<=",
        }
    }
}

/// Two different comparators stand for different operators.
pub proof fn lemma_comparator_symbols_distinct(a: Comparator, b: Comparator)
    requires
        a != b,
    ensures
        a.symbol() != b.symbol(),
{
    reveal_strlit("==");
    reveal_strlit("!=");
    reveal_strlit(">");
    reveal_strlit("<");
    reveal_strlit(">=");
    reveal_strlit("<=");
    if a.symbol() == b.symbol() {
        assert(a.symbol().len() == b.symbol().len());
        assert(a.symbol()[0] == b.symbol()[0]);
        if a.symbol().len() == 2 {
            assert(a.symbol()[1] == b.symbol()[1]);
        }
    }
}

/// A utxo data attribute: its name, and the comparison it is checked with.
pub type UtxoDatum = (String, Option<Comparator>, Option<String>);

pub type DatumView = (Seq<char>, Option<Comparator>, Option<Seq<char>>);

pub open spec fn opt_text(o: Option<String>) -> Option<Seq<char>> {
    match o {
        Some(s) => Some(s@),
        None => None,
    }
}

pub open spec fn cond_view(o: Option<(Comparator, String)>) -> Option<(Comparator, Seq<char>)> {
    match o {
        Some(p) => Some((p.0, p.1@)),
        None => None,
    }
}

pub open spec fn datum_view(d: UtxoDatum) -> DatumView {
    (d.0@, d.1, opt_text(d.2))
}

pub open spec fn data_seq(v: Seq<UtxoDatum>) -> Seq<DatumView> {
    v.map_values(|d: UtxoDatum| datum_view(d))
}

pub open spec fn data_view(o: Option<Vec<UtxoDatum>>) -> Option<Seq<DatumView>> {
    match o {
        Some(v) => Some(data_seq(v@)),
        None => None,
    }
}

#[derive(PartialEq, Debug, Clone)]
pub struct CheckUtxo {
    pub code: String,
    pub name: String,
    pub is_in_utxo: bool,
    pub is_out_utxo: bool,
    pub instruction_name: Option<String>,
    pub no_utxos: String,
    pub amount_sol: Option<(Comparator, String)>,
    pub amount_spl: Option<(Comparator, String)>,
    pub asset_spl: Option<(Comparator, String)>,
    pub app_data_hash: Option<(Comparator, String)>,
    pub utxo_data: Option<Vec<UtxoDatum>>,
}

/// A check-utxo declaration with its texts taken by value.
pub struct CheckUtxoView {
    pub code: Seq<char>,
    pub name: Seq<char>,
    pub is_in_utxo: bool,
    pub is_out_utxo: bool,
    pub instruction_name: Option<Seq<char>>,
    pub no_utxos: Seq<char>,
    pub amount_sol: Option<(Comparator, Seq<char>)>,
    pub amount_spl: Option<(Comparator, Seq<char>)>,
    pub asset_spl: Option<(Comparator, Seq<char>)>,
    pub app_data_hash: Option<(Comparator, Seq<char>)>,
    pub utxo_data: Option<Seq<DatumView>>,
}

impl View for CheckUtxo {
    type V = CheckUtxoView;

    open spec fn view(&self) -> CheckUtxoView {
        CheckUtxoView {
            code: self.code@,
            name: self.name@,
            is_in_utxo: self.is_in_utxo,
            is_out_utxo: self.is_out_utxo,
            instruction_name: opt_text(self.instruction_name),
            no_utxos: self.no_utxos@,
            amount_sol: cond_view(self.amount_sol),
            amount_spl: cond_view(self.amount_spl),
            asset_spl: cond_view(self.asset_spl),
            app_data_hash: cond_view(self.app_data_hash),
            utxo_data: data_view(self.utxo_data),
        }
    }
}

/// The declaration with `extra` appended to its code.
pub open spec fn with_code(m: CheckUtxoView, extra: Seq<char>) -> CheckUtxoView {
    CheckUtxoView { code: m.code + extra, ..m }
}

// ------------------------------------------------------------------
// Signals
// ------------------------------------------------------------------
pub open spec fn input_signal_text(input: Seq<char>) -> Seq<char> {
    "signal input "@ + input + ";\n"@
}

/// One input signal per utxo data attribute, in order.
pub open spec fn signals_text(data: Seq<DatumView>) -> Seq<char>
    decreases data.len(),
{
    if data.len() == 0 {
        seq![]
    } else {
        signals_text(data.drop_last()) + input_signal_text(data.last().0)
    }
}

pub fn generate_input_signal(input: &String) -> (r: String)
    ensures
        r@ == input_signal_text(input@),
{
    let mut r = copy_str("signal input ");
    push_str(&mut r, input.as_str());
    push_str(&mut r, ";\n");
    r
}

fn signals_code(data: &Vec<UtxoDatum>) -> (r: String)
    ensures
        r@ == signals_text(data_seq(data@)),
{
    let mut r = String::new();
    let mut i: usize = 0;
    let ghost dv = data_seq(data@);
    while i < data.len()
        invariant
            i <= data@.len(),
            dv == data_seq(data@),
            r@ == signals_text(dv.take(i as int)),
        decreases data@.len() - i,
    {
        assert(dv.take(i + 1).drop_last() =~= dv.take(i as int));
        let s = generate_input_signal(&data[i].0);
        push_str(&mut r, s.as_str());
        i += 1;
    }
    assert(dv.take(i as int) =~= dv);
    r
}


/// The number of utxos a declaration is for, read as `u64::from_str` reads it.
pub open spec fn utxo_count(m: CheckUtxoView) -> Option<nat> {
    parse_unsigned(m.no_utxos, u64::MAX as nat)
}

pub open spec fn when(b: bool, t: Seq<char>) -> Seq<char> {
    if b {
        t
    } else {
        seq![]
    }
}

fn count_of(s: &String) -> (r: Option<u64>)
    ensures
        match r {
            Some(v) => parse_unsigned(s@, u64::MAX as nat) == Some(v as nat),
            None => parse_unsigned(s@, u64::MAX as nat) is None,
        },
{
    let v = chars_of(s.as_str());
    parse_u64(&v)
}

// ------------------------------------------------------------------
// Components
// ------------------------------------------------------------------
pub open spec fn component_line(
    prefix: Seq<char>,
    prop: Seq<char>,
    name: Seq<char>,
    lname: Seq<char>,
    utype: Seq<char>,
) -> Seq<char> {
    "component check"@ + prefix + prop + name + "["@ + lname + "]["@ + utype + "];\n"@
}

/// One component per utxo data attribute that is compared.
pub open spec fn data_components_text(
    data: Seq<DatumView>,
    prefix: Seq<char>,
    name: Seq<char>,
    lname: Seq<char>,
    utype: Seq<char>,
) -> Seq<char>
    decreases data.len(),
{
    if data.len() == 0 {
        seq![]
    } else {
        data_components_text(data.drop_last(), prefix, name, lname, utype) + when(
            data.last().1 is Some,
            component_line(prefix, "UtxoData"@ + upper_camel_case(data.last().0), name, lname, utype),
        )
    }
}

/// The instruction hasher and its check, both named after the declaration;
/// for more than one utxo each is an array indexed by the utxo variable.
pub open spec fn hash_components_text(n: nat, name: Seq<char>, lname: Seq<char>, utype: Seq<char>) -> Seq<
    char,
> {
    if n > 1 {
        "component instructionHasher"@ + name + "["@ + lname + "];\ncomponent checkInstructionHash"@
            + name + "["@ + lname + "]["@ + utype + "];\n"@
    } else {
        "component instructionHasher"@ + name + ";\ncomponent checkInstructionHash"@ + name + "["@
            + utype + "];\n"@
    }
}

pub open spec fn utxo_type_text(m: CheckUtxoView) -> Seq<char> {
    if m.is_in_utxo {
        "nIns"@
    } else {
        "nOuts"@
    }
}

pub open spec fn upper_prefix_text(m: CheckUtxoView) -> Seq<char> {
    if m.is_in_utxo {
        "In"@
    } else {
        "Out"@
    }
}

pub open spec fn lower_prefix_text(m: CheckUtxoView) -> Seq<char> {
    if m.is_in_utxo {
        "in"@
    } else {
        "out"@
    }
}

/// The component declarations of a declaration that checks `n` utxos.
pub open spec fn components_text(m: CheckUtxoView, n: nat) -> Seq<char> {
    let utype = utxo_type_text(m);
    let prefix = upper_prefix_text(m);
    let lname = lower_camel_case(m.name);
    "var "@ + lname + " = "@ + decimal(n) + ";\n"@ + when(
        m.amount_sol is Some,
        component_line(prefix, "AmountSol"@, m.name, lname, utype),
    ) + when(m.amount_spl is Some, component_line(prefix, "AmountSpl"@, m.name, lname, utype))
        + when(m.asset_spl is Some, component_line(prefix, "AssetSpl"@, m.name, lname, utype))
        + when(m.app_data_hash is Some, component_line(prefix, "AppDataHash"@, m.name, lname, utype))
        + match m.utxo_data {
        Some(d) => data_components_text(d, prefix, m.name, lname, utype) + hash_components_text(
            n,
            m.name,
            lname,
            utype,
        ),
        None => seq![],
    }
}

fn component_line_code(prefix: &str, prop: &str, name: &str, lname: &str, utype: &str) -> (r: String)
    ensures
        r@ == component_line(prefix@, prop@, name@, lname@, utype@),
{
    let mut r = copy_str("component check");
    push_str(&mut r, prefix);
    push_str(&mut r, prop);
    push_str(&mut r, name);
    push_str(&mut r, "[");
    push_str(&mut r, lname);
    push_str(&mut r, "][");
    push_str(&mut r, utype);
    push_str(&mut r, "];\n");
    r
}

fn component_when(b: bool, prefix: &str, prop: &str, name: &str, lname: &str, utype: &str) -> (r:
    String)
    ensures
        r@ == when(b, component_line(prefix@, prop@, name@, lname@, utype@)),
{
    if b {
        component_line_code(prefix, prop, name, lname, utype)
    } else {
        String::new()
    }
}

fn data_components_code(
    data: &Vec<UtxoDatum>,
    prefix: &str,
    name: &str,
    lname: &str,
    utype: &str,
) -> (r: String)
    ensures
        r@ == data_components_text(data_seq(data@), prefix@, name@, lname@, utype@),
{
    let mut r = String::new();
    let mut i: usize = 0;
    let ghost dv = data_seq(data@);
    while i < data.len()
        invariant
            i <= data@.len(),
            dv == data_seq(data@),
            r@ == data_components_text(dv.take(i as int), prefix@, name@, lname@, utype@),
        decreases data@.len() - i,
    {
        assert(dv.take(i + 1).drop_last() =~= dv.take(i as int));
        let compared = data[i].1.is_some();
        let upper = to_upper_camel_case(data[i].0.as_str());
        let mut prop = copy_str("UtxoData");
        push_str(&mut prop, upper.as_str());
        let line = component_when(compared, prefix, prop.as_str(), name, lname, utype);
        push_str(&mut r, line.as_str());
        i += 1;
    }
    assert(dv.take(i as int) =~= dv);
    r
}

fn hash_components_code(n: u64, name: &str, lname: &str, utype: &str) -> (r: String)
    ensures
        r@ == hash_components_text(n as nat, name@, lname@, utype@),
{
    if n > 1 {
        let mut r = copy_str("component instructionHasher");
        push_str(&mut r, name);
        push_str(&mut r, "[");
        push_str(&mut r, lname);
        push_str(&mut r, "];\ncomponent checkInstructionHash");
        push_str(&mut r, name);
        push_str(&mut r, "[");
        push_str(&mut r, lname);
        push_str(&mut r, "][");
        push_str(&mut r, utype);
        push_str(&mut r, "];\n");
        r
    } else {
        let mut r = copy_str("component instructionHasher");
        push_str(&mut r, name);
        push_str(&mut r, ";\ncomponent checkInstructionHash");
        push_str(&mut r, name);
        push_str(&mut r, "[");
        push_str(&mut r, utype);
        push_str(&mut r, "];\n");
        r
    }
}

// ------------------------------------------------------------------
// Comparison checks
// ------------------------------------------------------------------
/// The four statements that check `assigning` against `comparing` for one
/// utxo, given the camel-cased variable name and type prefix.
pub open spec fn equal_check_text(
    name: Seq<char>,
    assigning: Seq<char>,
    var_camel: Seq<char>,
    comparing: Seq<char>,
    instruction: Seq<char>,
    prefix_camel: Seq<char>,
) -> Seq<char> {
    "check"@ + var_camel + name + "[i] = ForceEqualIfEnabled();\n        check"@ + var_camel + name
        + "[i].in[0] <== "@ + assigning + ";\n        check"@ + var_camel + name + "[i].in[1] <== "@
        + comparing + ";\n        check"@ + var_camel + name + "[i].enabled <== is"@ + prefix_camel
        + "AppUtxo"@ + name + "[i] * "@ + instruction + ";\n        "@
}

pub open spec fn equal_code_text(
    name: Seq<char>,
    assigning: Seq<char>,
    variable_name: Seq<char>,
    comparing: Seq<char>,
    instruction: Seq<char>,
    type_prefix: Seq<char>,
) -> Seq<char> {
    equal_check_text(
        name,
        assigning,
        upper_camel_case(variable_name),
        comparing,
        instruction,
        upper_camel_case(type_prefix),
    )
}

/// The checks for one optional comparison: nothing when it is absent.
pub open spec fn cond_check_text(
    c: Option<(Comparator, Seq<char>)>,
    name: Seq<char>,
    var: Seq<char>,
    idx: Seq<char>,
    value: Seq<char>,
    instruction: Seq<char>,
    prefix: Seq<char>,
) -> Seq<char> {
    match c {
        Some(t) => equal_code_text(name, value + idx, prefix + var, t.1, instruction, prefix),
        None => seq![],
    }
}

/// The checks of the utxo data attributes that have both a comparator and a
/// value to compare with.
pub open spec fn data_checks_text(
    data: Seq<DatumView>,
    name: Seq<char>,
    instruction: Seq<char>,
    prefix: Seq<char>,
) -> Seq<char>
    decreases data.len(),
{
    if data.len() == 0 {
        seq![]
    } else {
        let d = data.last();
        data_checks_text(data.drop_last(), name, instruction, prefix) + match (d.1, d.2) {
            (Some(comp), Some(v)) => cond_check_text(
                Some((comp, v)),
                name,
                "UtxoData"@ + upper_camel_case(d.0),
                ""@,
                d.0,
                instruction,
                prefix,
            ),
            _ => seq![],
        }
    }
}

pub open spec fn instruction_text(m: CheckUtxoView) -> Seq<char> {
    match m.instruction_name {
        Some(s) => s,
        None => "1"@,
    }
}

/// The checks that follow the amountSol check in the comparison loop, and
/// the loop's end.
pub open spec fn comparison_rest_text(m: CheckUtxoView, data: Seq<DatumView>) -> Seq<char> {
    let p = lower_prefix_text(m);
    let inst = instruction_text(m);
    cond_check_text(m.app_data_hash, m.name, "AppDataHash"@, ""@, p + "AppDataHash[i].out"@, inst, p)
        + cond_check_text(m.amount_spl, m.name, "AmountSpl"@, ".inputs[1]"@, p + "AmountsHasher[i]"@, inst, p)
        + cond_check_text(m.asset_spl, m.name, "AssetSpl"@, ".inputs[4]"@, p + "CommitmentHasher[i]"@, inst, p)
        + data_checks_text(data, m.name, inst, p) + "}\n"@
}

/// The loop that compares each utxo's fields with the declared values.
pub open spec fn comparison_checks_text(m: CheckUtxoView, data: Seq<DatumView>) -> Seq<char> {
    let utype = utxo_type_text(m);
    let p = lower_prefix_text(m);
    let inst = instruction_text(m);
    "for (var i = 0; i < "@ + utype + "; i++) {\n"@ + cond_check_text(
        m.amount_sol,
        m.name,
        "AmountSol"@,
        ".inputs[0]"@,
        p + "AmountsHasher[i]"@,
        inst,
        p,
    ) + cond_check_text(
        m.app_data_hash,
        m.name,
        "AppDataHash"@,
        ""@,
        p + "AppDataHash[i].out"@,
        inst,
        p,
    ) + cond_check_text(
        m.amount_spl,
        m.name,
        "AmountSpl"@,
        ".inputs[1]"@,
        p + "AmountsHasher[i]"@,
        inst,
        p,
    ) + cond_check_text(
        m.asset_spl,
        m.name,
        "AssetSpl"@,
        ".inputs[4]"@,
        p + "CommitmentHasher[i]"@,
        inst,
        p,
    ) + data_checks_text(data, m.name, inst, p) + "}\n"@
}

/// Builds the checks from camel-cased names that are already known.
pub fn equal_check_code(
    name: &str,
    assigning: &str,
    var_camel: &str,
    comparing: &str,
    instruction: &str,
    prefix_camel: &str,
) -> (r: String)
    ensures
        r@ == equal_check_text(name@, assigning@, var_camel@, comparing@, instruction@, prefix_camel@),
{
    let mut r = copy_str("check");
    push_str(&mut r, var_camel);
    push_str(&mut r, name);
    push_str(&mut r, "[i] = ForceEqualIfEnabled();\n        check");
    push_str(&mut r, var_camel);
    push_str(&mut r, name);
    push_str(&mut r, "[i].in[0] <== ");
    push_str(&mut r, assigning);
    push_str(&mut r, ";\n        check");
    push_str(&mut r, var_camel);
    push_str(&mut r, name);
    push_str(&mut r, "[i].in[1] <== ");
    push_str(&mut r, comparing);
    push_str(&mut r, ";\n        check");
    push_str(&mut r, var_camel);
    push_str(&mut r, name);
    push_str(&mut r, "[i].enabled <== is");
    push_str(&mut r, prefix_camel);
    push_str(&mut r, "AppUtxo");
    push_str(&mut r, name);
    push_str(&mut r, "[i] * ");
    push_str(&mut r, instruction);
    push_str(&mut r, ";\n        ");
    r
}

pub fn generate_equal_code(
    name: &String,
    assigning_variable_name: &String,
    variable_name: &String,
    comparing_variable_name: &String,
    instruction_name: &String,
    type_prefix: &str,
) -> (r: String)
    ensures
        r@ == equal_code_text(
            name@,
            assigning_variable_name@,
            variable_name@,
            comparing_variable_name@,
            instruction_name@,
            type_prefix@,
        ),
{
    let var_camel = to_upper_camel_case(variable_name.as_str());
    let prefix_camel = to_upper_camel_case(type_prefix);
    equal_check_code(
        name.as_str(),
        assigning_variable_name.as_str(),
        var_camel.as_str(),
        comparing_variable_name.as_str(),
        instruction_name.as_str(),
        prefix_camel.as_str(),
    )
}

fn concat(a: &str, b: &str) -> (r: String)
    ensures
        r@ == a@ + b@,
{
    let mut r = copy_str(a);
    push_str(&mut r, b);
    r
}

fn cond_check_code(
    c: &Option<(Comparator, String)>,
    name: &String,
    var: &str,
    idx: &str,
    value: &String,
    instruction: &String,
    prefix: &str,
) -> (r: String)
    ensures
        r@ == cond_check_text(cond_view(*c), name@, var@, idx@, value@, instruction@, prefix@),
{
    match c {
        Some(t) => {
            let variable_name = concat(prefix, var);
            let assigning = concat(value.as_str(), idx);
            generate_equal_code(name, &assigning, &variable_name, &t.1, instruction, prefix)
        },
        None => String::new(),
    }
}

fn data_checks_code(data: &Vec<UtxoDatum>, name: &String, instruction: &String, prefix: &str) -> (r:
    String)
    ensures
        r@ == data_checks_text(data_seq(data@), name@, instruction@, prefix@),
{
    let mut r = String::new();
    let mut i: usize = 0;
    let ghost dv = data_seq(data@);
    while i < data.len()
        invariant
            i <= data@.len(),
            dv == data_seq(data@),
            r@ == data_checks_text(dv.take(i as int), name@, instruction@, prefix@),
        decreases data@.len() - i,
    {
        assert(dv.take(i + 1).drop_last() =~= dv.take(i as int));
        let d = &data[i];
        let piece = match (&d.1, &d.2) {
            (Some(comp), Some(v)) => {
                let upper = to_upper_camel_case(d.0.as_str());
                let variable_name = concat("UtxoData", upper.as_str());
                let c = Some((*comp, v.clone()));
                cond_check_code(&c, name, variable_name.as_str(), "", &d.0, instruction, prefix)
            },
            _ => String::new(),
        };
        push_str(&mut r, piece.as_str());
        i += 1;
    }
    assert(dv.take(i as int) =~= dv);
    r
}

// ------------------------------------------------------------------
// Instruction hash
// ------------------------------------------------------------------
pub open spec fn hasher_text(n: nat, uname: Seq<char>, len: nat) -> Seq<char> {
    if n > 1 {
        "for (var appUtxoIndex = 0; appUtxoIndex < nAppUtxos; appUtxoIndex++) {\n\tinstructionHasher"@
            + uname + "[appUtxoIndex] = Poseidon("@ + decimal(len) + ");\n"@
    } else {
        "instructionHasher"@ + uname + " = Poseidon("@ + decimal(len) + ");\n"@
    }
}

pub open spec fn hash_input_line(n: nat, uname: Seq<char>, i: nat, var: Seq<char>) -> Seq<char> {
    if n == 1 {
        "instructionHasher"@ + uname + ".inputs["@ + decimal(i) + "] <== "@ + var + ";\n"@
    } else {
        "instructionHasher"@ + uname + "[appUtxoIndex].inputs["@ + decimal(i) + "] <== "@ + var
            + "[appUtxoIndex];\n"@
    }
}

/// One hasher input per utxo data attribute, numbered from 0.
pub open spec fn hash_inputs_text(n: nat, uname: Seq<char>, data: Seq<DatumView>) -> Seq<char>
    decreases data.len(),
{
    if data.len() == 0 {
        seq![]
    } else {
        hash_inputs_text(n, uname, data.drop_last()) + hash_input_line(
            n,
            uname,
            (data.len() - 1) as nat,
            data.last().0,
        )
    }
}

pub open spec fn force_equal_text(n: nat, uname: Seq<char>, uprefix: Seq<char>) -> Seq<char> {
    if n > 1 {
        "for (var inUtxoIndex = 0; inUtxoIndex < nIns; inUtxoIndex++) {\n\tcheckInstructionHash"@
            + uname + "[appUtxoIndex][inUtxoIndex] = ForceEqualIfEnabled();\n\tcheckInstructionHash"@
            + uname
            + "[appUtxoIndex][inUtxoIndex].in[0] <== inAppDataHash[inUtxoIndex];\n\tcheckInstructionHash"@
            + uname + "[appUtxoIndex][inUtxoIndex].in[1] <== instructionHasher"@ + uname
            + "[appUtxoIndex].out;\n\tcheckInstructionHash"@ + uname
            + "[appUtxoIndex][inUtxoIndex].enabled <== is"@ + uprefix + "AppUtxo"@ + uname
            + "[appUtxoIndex][inUtxoIndex];\n}\n}\n"@
    } else {
        "for (var inUtxoIndex = 0; inUtxoIndex < nIns; inUtxoIndex++) {\n\tcheckInstructionHash"@
            + uname + "[inUtxoIndex] = ForceEqualIfEnabled();\n\tcheckInstructionHash"@ + uname
            + "[inUtxoIndex].in[0] <== inAppDataHash[inUtxoIndex];\n\tcheckInstructionHash"@ + uname
            + "[inUtxoIndex].in[1] <== instructionHasher"@ + uname
            + ".out;\n\tcheckInstructionHash"@ + uname + "[inUtxoIndex].enabled <== is"@ + uprefix
            + "AppUtxo"@ + uname + "[inUtxoIndex];\n}\n"@
    }
}

/// The instruction hasher of a declaration that checks `n` utxos.
pub open spec fn instruction_hash_text(m: CheckUtxoView, data: Seq<DatumView>, n: nat) -> Seq<char> {
    let uname = upper_camel_case(m.name);
    hasher_text(n, uname, data.len()) + hash_inputs_text(n, uname, data) + force_equal_text(
        n,
        uname,
        upper_camel_case(lower_prefix_text(m)),
    )
}

/// An attribute name that denotes an array, which the hasher cannot take.
pub open spec fn is_array_name(s: Seq<char>) -> bool {
    s.contains('[') && s.contains(']')
}

fn hasher_code(n: u64, uname: &str, len: usize) -> (r: String)
    ensures
        r@ == hasher_text(n as nat, uname@, len as nat),
{
    if n > 1 {
        let mut r = copy_str(
            "for (var appUtxoIndex = 0; appUtxoIndex < nAppUtxos; appUtxoIndex++) {\n\tinstructionHasher",
        );
        push_str(&mut r, uname);
        push_str(&mut r, "[appUtxoIndex] = Poseidon(");
        push_decimal(&mut r, len as u64);
        push_str(&mut r, ");\n");
        r
    } else {
        let mut r = copy_str("instructionHasher");
        push_str(&mut r, uname);
        push_str(&mut r, " = Poseidon(");
        push_decimal(&mut r, len as u64);
        push_str(&mut r, ");\n");
        r
    }
}

fn hash_input_code(n: u64, uname: &str, i: usize, var: &str) -> (r: String)
    ensures
        r@ == hash_input_line(n as nat, uname@, i as nat, var@),
{
    if n == 1 {
        let mut r = copy_str("instructionHasher");
        push_str(&mut r, uname);
        push_str(&mut r, ".inputs[");
        push_decimal(&mut r, i as u64);
        push_str(&mut r, "] <== ");
        push_str(&mut r, var);
        push_str(&mut r, ";\n");
        r
    } else {
        let mut r = copy_str("instructionHasher");
        push_str(&mut r, uname);
        push_str(&mut r, "[appUtxoIndex].inputs[");
        push_decimal(&mut r, i as u64);
        push_str(&mut r, "] <== ");
        push_str(&mut r, var);
        push_str(&mut r, "[appUtxoIndex];\n");
        r
    }
}

fn hash_inputs_code(n: u64, uname: &str, data: &Vec<UtxoDatum>) -> (r: String)
    ensures
        r@ == hash_inputs_text(n as nat, uname@, data_seq(data@)),
{
    let mut r = String::new();
    let mut i: usize = 0;
    let ghost dv = data_seq(data@);
    while i < data.len()
        invariant
            i <= data@.len(),
            dv == data_seq(data@),
            r@ == hash_inputs_text(n as nat, uname@, dv.take(i as int)),
        decreases data@.len() - i,
    {
        assert(dv.take(i + 1).drop_last() =~= dv.take(i as int));
        let line = hash_input_code(n, uname, i, data[i].0.as_str());
        push_str(&mut r, line.as_str());
        i += 1;
    }
    assert(dv.take(i as int) =~= dv);
    r
}

fn force_equal_code(n: u64, uname: &str, uprefix: &str) -> (r: String)
    ensures
        r@ == force_equal_text(n as nat, uname@, uprefix@),
{
    if n > 1 {
        let mut r = copy_str(
            "for (var inUtxoIndex = 0; inUtxoIndex < nIns; inUtxoIndex++) {\n\tcheckInstructionHash",
        );
        push_str(&mut r, uname);
        push_str(&mut r, "[appUtxoIndex][inUtxoIndex] = ForceEqualIfEnabled();\n\tcheckInstructionHash");
        push_str(&mut r, uname);
        push_str(
            &mut r,
            "[appUtxoIndex][inUtxoIndex].in[0] <== inAppDataHash[inUtxoIndex];\n\tcheckInstructionHash",
        );
        push_str(&mut r, uname);
        push_str(&mut r, "[appUtxoIndex][inUtxoIndex].in[1] <== instructionHasher");
        push_str(&mut r, uname);
        push_str(&mut r, "[appUtxoIndex].out;\n\tcheckInstructionHash");
        push_str(&mut r, uname);
        push_str(&mut r, "[appUtxoIndex][inUtxoIndex].enabled <== is");
        push_str(&mut r, uprefix);
        push_str(&mut r, "AppUtxo");
        push_str(&mut r, uname);
        push_str(&mut r, "[appUtxoIndex][inUtxoIndex];\n}\n}\n");
        r
    } else {
        let mut r = copy_str(
            "for (var inUtxoIndex = 0; inUtxoIndex < nIns; inUtxoIndex++) {\n\tcheckInstructionHash",
        );
        push_str(&mut r, uname);
        push_str(&mut r, "[inUtxoIndex] = ForceEqualIfEnabled();\n\tcheckInstructionHash");
        push_str(&mut r, uname);
        push_str(&mut r, "[inUtxoIndex].in[0] <== inAppDataHash[inUtxoIndex];\n\tcheckInstructionHash");
        push_str(&mut r, uname);
        push_str(&mut r, "[inUtxoIndex].in[1] <== instructionHasher");
        push_str(&mut r, uname);
        push_str(&mut r, ".out;\n\tcheckInstructionHash");
        push_str(&mut r, uname);
        push_str(&mut r, "[inUtxoIndex].enabled <== is");
        push_str(&mut r, uprefix);
        push_str(&mut r, "AppUtxo");
        push_str(&mut r, uname);
        push_str(&mut r, "[inUtxoIndex];\n}\n");
        r
    }
}

// ------------------------------------------------------------------
// Reading a declaration
// ------------------------------------------------------------------
/// The declaration that a header with these parts starts.
pub open spec fn header_view(name: Seq<char>, count: Seq<char>, instruction: Option<Seq<char>>) -> CheckUtxoView {
    CheckUtxoView {
        code: seq![],
        name: upper_camel_case(name),
        is_in_utxo: false,
        is_out_utxo: false,
        instruction_name: match instruction {
            Some(i) => Some(lower_camel_case(i)),
            None => None,
        },
        no_utxos: count,
        amount_sol: None,
        amount_spl: None,
        asset_spl: None,
        app_data_hash: None,
        utxo_data: None,
    }
}

/// A property value with the separators around it removed.
pub open spec fn property_value(word: Seq<char>) -> Seq<char> {
    trim(CharClass::Separator, word)
}

/// Whether `prop` names a comparison property that is not yet set.
pub open spec fn property_unset(m: CheckUtxoView, prop: Seq<char>) -> bool {
    (prop == "amountSol"@ && m.amount_sol is None) || (prop == "amountSpl"@ && m.amount_spl is None)
        || (prop == "assetSpl"@ && m.asset_spl is None) || (prop == "appDataHash"@
        && m.app_data_hash is None)
}

/// The lines that `process_line` can read: at least a property and, where
/// it is looked at, a comparator and a value.
pub open spec fn process_line_defined(m: CheckUtxoView, line: Seq<char>) -> bool {
    let parts = words(line);
    parts.len() >= 1 && (!contains_seq(parts[0], "utxoData"@) ==> parts.len() >= 2 && (parts[1]
        == "=="@ && property_unset(m, parts[0]) ==> parts.len() >= 3))
}

/// The declaration after one property line, and the outcome.
pub open spec fn process_line_spec(m: CheckUtxoView, line: Seq<char>) -> (CheckUtxoView, Result<(), ErrorView>) {
    let parts = words(line);
    if contains_seq(parts[0], "utxoData"@) {
        if m.utxo_data is None {
            (CheckUtxoView { utxo_data: Some(seq![]), ..m }, Ok(()))
        } else {
            (m, Err(ErrorView::PropertyDefinedMultipleTimes))
        }
    } else if parts[1] != "=="@ {
        (m, Err(ErrorView::InvalidComparator(parts[1])))
    } else if parts[0] == "amountSol"@ {
        if m.amount_sol is None {
            (CheckUtxoView { amount_sol: Some((Comparator::Equal, property_value(parts[2]))), ..m }, Ok(()))
        } else {
            (m, Err(ErrorView::PropertyDefinedMultipleTimes))
        }
    } else if parts[0] == "amountSpl"@ {
        if m.amount_spl is None {
            (CheckUtxoView { amount_spl: Some((Comparator::Equal, property_value(parts[2]))), ..m }, Ok(()))
        } else {
            (m, Err(ErrorView::PropertyDefinedMultipleTimes))
        }
    } else if parts[0] == "assetSpl"@ {
        if m.asset_spl is None {
            (CheckUtxoView { asset_spl: Some((Comparator::Equal, property_value(parts[2]))), ..m }, Ok(()))
        } else {
            (m, Err(ErrorView::PropertyDefinedMultipleTimes))
        }
    } else if parts[0] == "appDataHash"@ {
        if m.app_data_hash is None {
            (
                CheckUtxoView { app_data_hash: Some((Comparator::Equal, property_value(parts[2]))), ..m },
                Ok(()),
            )
        } else {
            (m, Err(ErrorView::PropertyDefinedMultipleTimes))
        }
    } else {
        (m, Err(ErrorView::InvalidProperty))
    }
}

/// Once a comparison property is set, a second line for the same property is
/// refused and leaves the declaration as it was.
pub proof fn lemma_property_set_once(m: CheckUtxoView, first: Seq<char>, second: Seq<char>)
    requires
        process_line_defined(m, first),
        process_line_spec(m, first).1 is Ok,
        !contains_seq(words(first)[0], "utxoData"@),
        words(second).len() >= 2,
        words(second)[0] == words(first)[0],
        words(second)[1] == "=="@,
    ensures
        process_line_spec(process_line_spec(m, first).0, second) == (
            process_line_spec(m, first).0,
            Err::<(), ErrorView>(ErrorView::PropertyDefinedMultipleTimes),
        ),
{
}

/// Once the utxo data list is opened, a second `utxoData` line is refused and
/// leaves the declaration as it was.
pub proof fn lemma_utxo_data_opened_once(m: CheckUtxoView, first: Seq<char>, second: Seq<char>)
    requires
        process_line_defined(m, first),
        process_line_spec(m, first).1 is Ok,
        contains_seq(words(first)[0], "utxoData"@),
        words(second).len() >= 1,
        contains_seq(words(second)[0], "utxoData"@),
    ensures
        process_line_spec(process_line_spec(m, first).0, second) == (
            process_line_spec(m, first).0,
            Err::<(), ErrorView>(ErrorView::PropertyDefinedMultipleTimes),
        ),
{
}

/// The declaration with one more utxo data attribute.
pub open spec fn with_datum(m: CheckUtxoView, d: DatumView) -> CheckUtxoView {
    CheckUtxoView { utxo_data: Some(m.utxo_data.unwrap().push(d)), ..m }
}

/// The lines that `process_utxo_data_line` can read: where an attribute is
/// added, the attribute list exists.
pub open spec fn data_line_defined(m: CheckUtxoView, line: Seq<char>) -> bool {
    let parts = words(line);
    !parts.contains("}"@) && (parts.len() == 1 || (parts.len() >= 3 && parts[1] == "=="@))
        ==> m.utxo_data is Some
}

/// The declaration after one utxo data line, and the outcome: `1` when an
/// attribute was read, `2` when the list ends.
pub open spec fn data_line_spec(m: CheckUtxoView, line: Seq<char>) -> (CheckUtxoView, Result<i32, ErrorView>) {
    let parts = words(line);
    if parts.contains("}"@) {
        (m, Ok(2))
    } else if parts.len() == 1 {
        (with_datum(m, (property_value(parts[0]), None, None)), Ok(1))
    } else if parts.len() < 3 {
        (m, Err(ErrorView::PropertyDefinedMultipleTimes))
    } else if parts[1] != "=="@ {
        (m, Err(ErrorView::InvalidComparator(parts[1])))
    } else {
        (
            with_datum(
                m,
                (property_value(parts[0]), Some(Comparator::Equal), Some(property_value(parts[2]))),
            ),
            Ok(1),
        )
    }
}

/// One line of a declaration body, read in the given state: `0` before the
/// utxo data list, `1` inside it, `2` after it.
pub open spec fn input_step(m: CheckUtxoView, line: Seq<char>, found: i32) -> (CheckUtxoView, Result<i32, ErrorView>) {
    if found == 0 && m.utxo_data is Some {
        data_line_spec(m, line)
    } else if found == 0 {
        let (m2, r) = process_line_spec(m, line);
        (
            m2,
            match r {
                Ok(_) => Ok(0),
                Err(e) => Err(e),
            },
        )
    } else if found == 1 {
        data_line_spec(m, line)
    } else {
        (m, Ok(found))
    }
}

pub open spec fn input_step_defined(m: CheckUtxoView, line: Seq<char>, found: i32) -> bool {
    if found == 0 && m.utxo_data is Some {
        data_line_defined(m, line)
    } else if found == 0 {
        process_line_defined(m, line)
    } else if found == 1 {
        data_line_defined(m, line)
    } else {
        true
    }
}

/// The declaration after a body's lines, stopping at the first error.
pub open spec fn from_input_spec(m: CheckUtxoView, lines: Seq<Seq<char>>, found: i32) -> (CheckUtxoView, Result<(), ErrorView>)
    decreases lines.len(),
{
    if lines.len() == 0 {
        (m, Ok(()))
    } else {
        let (m2, r) = input_step(m, lines[0], found);
        match r {
            Err(e) => (m2, Err(e)),
            Ok(f) => from_input_spec(m2, lines.drop_first(), f),
        }
    }
}

pub open spec fn from_input_defined(m: CheckUtxoView, lines: Seq<Seq<char>>, found: i32) -> bool
    decreases lines.len(),
{
    lines.len() == 0 || (input_step_defined(m, lines[0], found) && match input_step(m, lines[0], found).1 {
        Ok(f) => from_input_defined(input_step(m, lines[0], found).0, lines.drop_first(), f),
        Err(_) => true,
    })
}

fn words_have_brace(parts: &Vec<Vec<char>>) -> (r: bool)
    ensures
        r == seqs_of(parts@).contains("}"@),
{
    let mut i: usize = 0;
    while i < parts.len()
        invariant
            i <= parts@.len(),
            forall|j: int| 0 <= j < i ==> parts@[j]@ != "}"@,
        decreases parts@.len() - i,
    {
        if eq_str(&parts[i], "}") {
            assert(seqs_of(parts@)[i as int] == "}"@);
            return true;
        }
        i += 1;
    }
    assert forall|j: int| 0 <= j < seqs_of(parts@).len() implies seqs_of(parts@)[j] != "}"@ by {
        assert(seqs_of(parts@)[j] == parts@[j]@);
    }
    false
}

fn property_text(word: &Vec<char>) -> (r: String)
    ensures
        r@ == property_value(word@),
{
    let t = trim_chars(CharClass::Separator, word);
    string_of(t.as_slice())
}

impl CheckUtxo {
    pub fn new() -> (r: Self)
        ensures
            r@ == (CheckUtxoView {
                code: seq![],
                name: seq![],
                is_in_utxo: false,
                is_out_utxo: false,
                instruction_name: None,
                no_utxos: "0"@,
                amount_sol: None,
                amount_spl: None,
                asset_spl: None,
                app_data_hash: None,
                utxo_data: None,
            }),
    {
        CheckUtxo {
            code: String::new(),
            name: String::new(),
            is_in_utxo: false,
            is_out_utxo: false,
            instruction_name: None,
            no_utxos: copy_str("0"),
            amount_sol: None,
            amount_spl: None,
            asset_spl: None,
            app_data_hash: None,
            utxo_data: None,
        }
    }

    /// Reads a header such as `#[checkInUtxo(name, 1, instruction)]`.
    pub fn parse_header(header: &str) -> (r: Result<Self, MacroCircomError>)
        ensures
            match header_captures(header@) {
                Some(c) => r matches Ok(u) && u@ == header_view(c.0, c.1, c.2),
                None => result_view(r) == Err::<CheckUtxo, ErrorView>(
                    ErrorView::CheckUtxoInvalidHeaderFormat,
                ),
            },
    {
        match header_parts(header) {
            Some((name, count, instruction)) => {
                let instruction_name = match instruction {
                    Some(i) => Some(to_lower_camel_case(i.as_str())),
                    None => None,
                };
                Ok(CheckUtxo {
                    code: String::new(),
                    name: to_upper_camel_case(name.as_str()),
                    is_in_utxo: false,
                    is_out_utxo: false,
                    instruction_name,
                    no_utxos: count,
                    amount_sol: None,
                    amount_spl: None,
                    asset_spl: None,
                    app_data_hash: None,
                    utxo_data: None,
                })
            },
            None => Err(MacroCircomError::CheckUtxoInvalidHeaderFormat),
        }
    }

    /// The comparator an operator stands for; only `==` is supported.
    pub fn match_comparator(string: &str) -> (r: Result<Comparator, MacroCircomError>)
        ensures
            string@ == "=="@ ==> r == Ok::<Comparator, MacroCircomError>(Comparator::Equal),
            string@ != "=="@ ==> result_view(r) == Err::<Comparator, ErrorView>(
                ErrorView::InvalidComparator(string@),
            ),
    {
        let v = chars_of(string);
        if eq_str(&v, "==") {
            Ok(Comparator::Equal)
        } else {
            Err(MacroCircomError::InvalidComparator(copy_str(string)))
        }
    }

    /// Reads one property line of a declaration body.
    pub fn process_line(&mut self, line: &str) -> (r: Result<(), MacroCircomError>)
        requires
            process_line_defined(old(self)@, line@),
        ensures
            (final(self)@, result_view(r)) == process_line_spec(old(self)@, line@),
    {
        let lv = chars_of(line);
        let parts = words_of(&lv);
        assert(seqs_of(parts@)[0] == parts@[0]@);
        if contains_str(&parts[0], "utxoData") {
            if self.utxo_data.is_none() {
                self.utxo_data = Some(Vec::new());
                assert(data_seq(Seq::<UtxoDatum>::empty()) =~= Seq::<DatumView>::empty());
                return Ok(());
            } else {
                return Err(MacroCircomError::PropertyDefinedMultipleTimes);
            }
        }
        assert(seqs_of(parts@)[1] == parts@[1]@);
        let op = string_of(parts[1].as_slice());
        let comparator = match Self::match_comparator(op.as_str()) {
            Ok(c) => c,
            Err(e) => {
                return Err(e);
            },
        };
        if eq_str(&parts[0], "amountSol") {
            if self.amount_sol.is_none() {
                assert(seqs_of(parts@)[2] == parts@[2]@);
                self.amount_sol = Some((comparator, property_text(&parts[2])));
                Ok(())
            } else {
                Err(MacroCircomError::PropertyDefinedMultipleTimes)
            }
        } else if eq_str(&parts[0], "amountSpl") {
            if self.amount_spl.is_none() {
                assert(seqs_of(parts@)[2] == parts@[2]@);
                self.amount_spl = Some((comparator, property_text(&parts[2])));
                Ok(())
            } else {
                Err(MacroCircomError::PropertyDefinedMultipleTimes)
            }
        } else if eq_str(&parts[0], "assetSpl") {
            if self.asset_spl.is_none() {
                assert(seqs_of(parts@)[2] == parts@[2]@);
                self.asset_spl = Some((comparator, property_text(&parts[2])));
                Ok(())
            } else {
                Err(MacroCircomError::PropertyDefinedMultipleTimes)
            }
        } else if eq_str(&parts[0], "appDataHash") {
            if self.app_data_hash.is_none() {
                assert(seqs_of(parts@)[2] == parts@[2]@);
                self.app_data_hash = Some((comparator, property_text(&parts[2])));
                Ok(())
            } else {
                Err(MacroCircomError::PropertyDefinedMultipleTimes)
            }
        } else {
            Err(MacroCircomError::InvalidProperty)
        }
    }

    fn push_datum(&mut self, d: UtxoDatum)
        requires
            old(self).utxo_data is Some,
        ensures
            final(self)@ == with_datum(old(self)@, datum_view(d)),
    {
        let mut data = self.utxo_data.take().unwrap();
        let ghost before = data@;
        data.push(d);
        assert(data_seq(data@) =~= data_seq(before).push(datum_view(d)));
        self.utxo_data = Some(data);
    }

    /// Reads one line of the utxo data list.
    pub fn process_utxo_data_line(&mut self, line: &str) -> (r: Result<i32, MacroCircomError>)
        requires
            data_line_defined(old(self)@, line@),
        ensures
            (final(self)@, result_view(r)) == data_line_spec(old(self)@, line@),
    {
        let lv = chars_of(line);
        let parts = words_of(&lv);
        if words_have_brace(&parts) {
            return Ok(2);
        }
        if parts.len() == 1 {
            assert(seqs_of(parts@)[0] == parts@[0]@);
            let name = property_text(&parts[0]);
            self.push_datum((name, None, None));
            return Ok(1);
        }
        if parts.len() < 3 {
            return Err(MacroCircomError::PropertyDefinedMultipleTimes);
        }
        assert(seqs_of(parts@)[0] == parts@[0]@);
        assert(seqs_of(parts@)[1] == parts@[1]@);
        assert(seqs_of(parts@)[2] == parts@[2]@);
        let op = string_of(parts[1].as_slice());
        let comparator = match Self::match_comparator(op.as_str()) {
            Ok(c) => c,
            Err(e) => {
                return Err(e);
            },
        };
        let name = property_text(&parts[0]);
        let value = property_text(&parts[2]);
        self.push_datum((name, Some(comparator), Some(value)));
        Ok(1)
    }

    /// Reads the lines of a declaration body in order, stopping at the first
    /// error.
    pub fn from_input(&mut self, input: &Vec<String>) -> (r: Result<(), MacroCircomError>)
        requires
            from_input_defined(old(self)@, strs_of(input@), 0),
        ensures
            (final(self)@, result_view(r)) == from_input_spec(old(self)@, strs_of(input@), 0),
    {
        let ghost lines = strs_of(input@);
        let mut found: i32 = 0;
        let mut i: usize = 0;
        assert(lines.subrange(0, lines.len() as int) =~= lines);
        while i < input.len()
            invariant
                i <= input@.len(),
                lines == strs_of(input@),
                lines.len() == input@.len(),
                from_input_spec(self@, lines.subrange(i as int, lines.len() as int), found)
                    == from_input_spec(old(self)@, lines, 0),
                from_input_defined(self@, lines.subrange(i as int, lines.len() as int), found),
            decreases input@.len() - i,
        {
            let ghost rest = lines.subrange(i as int, lines.len() as int);
            assert(rest[0] == input@[i as int]@);
            assert(rest.drop_first() =~= lines.subrange(i + 1, lines.len() as int));
            let line = input[i].as_str();
            if found == 0 && self.utxo_data.is_some() {
                match self.process_utxo_data_line(line) {
                    Ok(f) => {
                        found = f;
                    },
                    Err(e) => {
                        return Err(e);
                    },
                }
            } else if found == 0 {
                match self.process_line(line) {
                    Ok(_) => {},
                    Err(e) => {
                        return Err(e);
                    },
                }
            } else if found == 1 {
                match self.process_utxo_data_line(line) {
                    Ok(f) => {
                        found = f;
                    },
                    Err(e) => {
                        return Err(e);
                    },
                }
            }
            i += 1;
        }
        Ok(())
    }

    /// Appends the component declarations. Fails, with the code unchanged,
    /// when the declaration is neither for input nor for output utxos.
    pub fn generate_components(&mut self) -> (r: Result<(), MacroCircomError>)
        requires
            old(self).is_in_utxo || old(self).is_out_utxo ==> utxo_count(old(self)@) is Some,
        ensures
            !old(self).is_in_utxo && !old(self).is_out_utxo ==> result_view(r) == Err::<(), ErrorView>(
                ErrorView::CheckUtxoInvalidFormat,
            ) && final(self)@ == old(self)@,
            old(self).is_in_utxo || old(self).is_out_utxo ==> r is Ok && final(self)@ == with_code(
                old(self)@,
                components_text(old(self)@, utxo_count(old(self)@).unwrap()),
            ),
    {
        if !self.is_in_utxo && !self.is_out_utxo {
            return Err(MacroCircomError::CheckUtxoInvalidFormat);
        }
        let utype = if self.is_in_utxo {
            "nIns"
        } else {
            "nOuts"
        };
        let prefix = if self.is_in_utxo {
            "In"
        } else {
            "Out"
        };
        let n = count_of(&self.no_utxos).unwrap();
        let name = self.name.as_str();
        let lname = to_lower_camel_case(name);
        let mut t = copy_str("var ");
        push_str(&mut t, lname.as_str());
        push_str(&mut t, " = ");
        push_decimal(&mut t, n);
        push_str(&mut t, ";\n");
        let c = component_when(self.amount_sol.is_some(), prefix, "AmountSol", name, lname.as_str(), utype);
        push_str(&mut t, c.as_str());
        let c = component_when(self.amount_spl.is_some(), prefix, "AmountSpl", name, lname.as_str(), utype);
        push_str(&mut t, c.as_str());
        let c = component_when(self.asset_spl.is_some(), prefix, "AssetSpl", name, lname.as_str(), utype);
        push_str(&mut t, c.as_str());
        let c = component_when(
            self.app_data_hash.is_some(),
            prefix,
            "AppDataHash",
            name,
            lname.as_str(),
            utype,
        );
        push_str(&mut t, c.as_str());
        let tail = match &self.utxo_data {
            Some(data) => {
                let mut x = data_components_code(data, prefix, name, lname.as_str(), utype);
                let h = hash_components_code(n, name, lname.as_str(), utype);
                push_str(&mut x, h.as_str());
                x
            },
            None => String::new(),
        };
        push_str(&mut t, tail.as_str());
        push_str(&mut self.code, t.as_str());
        Ok(())
    }

    /// Appends the loop that compares each utxo with the declared values.
    pub fn generate_comparison_check_code(&mut self) -> (r: Result<(), MacroCircomError>)
        requires
            old(self).is_in_utxo || old(self).is_out_utxo ==> old(self).utxo_data is Some,
        ensures
            !old(self).is_in_utxo && !old(self).is_out_utxo ==> result_view(r) == Err::<(), ErrorView>(
                ErrorView::CheckUtxoInvalidFormat,
            ) && final(self)@ == old(self)@,
            old(self).is_in_utxo || old(self).is_out_utxo ==> r is Ok && final(self)@ == with_code(
                old(self)@,
                comparison_checks_text(old(self)@, old(self)@.utxo_data.unwrap()),
            ),
    {
        if !self.is_in_utxo && !self.is_out_utxo {
            return Err(MacroCircomError::CheckUtxoInvalidFormat);
        }
        let utype = if self.is_in_utxo {
            "nIns"
        } else {
            "nOuts"
        };
        let p = if self.is_in_utxo {
            "in"
        } else {
            "out"
        };
        let instruction = match &self.instruction_name {
            Some(s) => s.clone(),
            None => copy_str("1"),
        };
        let mut t = copy_str("for (var i = 0; i < ");
        push_str(&mut t, utype);
        push_str(&mut t, "; i++) {\n");
        let value = concat(p, "AmountsHasher[i]");
        let c = cond_check_code(&self.amount_sol, &self.name, "AmountSol", ".inputs[0]", &value, &instruction, p);
        push_str(&mut t, c.as_str());
        let value = concat(p, "AppDataHash[i].out");
        let c = cond_check_code(&self.app_data_hash, &self.name, "AppDataHash", "", &value, &instruction, p);
        push_str(&mut t, c.as_str());
        let value = concat(p, "AmountsHasher[i]");
        let c = cond_check_code(&self.amount_spl, &self.name, "AmountSpl", ".inputs[1]", &value, &instruction, p);
        push_str(&mut t, c.as_str());
        let value = concat(p, "CommitmentHasher[i]");
        let c = cond_check_code(&self.asset_spl, &self.name, "AssetSpl", ".inputs[4]", &value, &instruction, p);
        push_str(&mut t, c.as_str());
        let checks = match &self.utxo_data {
            Some(data) => data_checks_code(data, &self.name, &instruction, p),
            None => String::new(),
        };
        push_str(&mut t, checks.as_str());
        push_str(&mut t, "}\n");
        push_str(&mut self.code, t.as_str());
        Ok(())
    }

    /// Appends the hasher of the utxo data attributes and the check that each
    /// app utxo carries its hash.
    pub fn generate_instruction_hash_code(&mut self) -> (r: Result<(), MacroCircomError>)
        requires
            (old(self).is_in_utxo || old(self).is_out_utxo) && old(self)@.utxo_data is Some ==> {
                &&& utxo_count(old(self)@) is Some
                &&& forall|i: int|
                    0 <= i < old(self)@.utxo_data.unwrap().len() ==> !is_array_name(
                        #[trigger] old(self)@.utxo_data.unwrap()[i].0,
                    )
            },
        ensures
            !old(self).is_in_utxo && !old(self).is_out_utxo ==> result_view(r) == Err::<(), ErrorView>(
                ErrorView::CheckUtxoInvalidFormat,
            ) && final(self)@ == old(self)@,
            old(self).is_in_utxo || old(self).is_out_utxo ==> r is Ok && final(self)@ == with_code(
                old(self)@,
                match old(self)@.utxo_data {
                    Some(d) => instruction_hash_text(old(self)@, d, utxo_count(old(self)@).unwrap()),
                    None => seq![],
                },
            ),
    {
        if !self.is_in_utxo && !self.is_out_utxo {
            return Err(MacroCircomError::CheckUtxoInvalidFormat);
        }
        let p = if self.is_in_utxo {
            "in"
        } else {
            "out"
        };
        let t = match &self.utxo_data {
            Some(data) => {
                let n = count_of(&self.no_utxos).unwrap();
                let uname = to_upper_camel_case(self.name.as_str());
                let mut t = hasher_code(n, uname.as_str(), data.len());
                proof {
                    assert(data_seq(data@).len() == data@.len());
                }
                let inputs = hash_inputs_code(n, uname.as_str(), data);
                push_str(&mut t, inputs.as_str());
                let uprefix = to_upper_camel_case(p);
                let f = force_equal_code(n, uname.as_str(), uprefix.as_str());
                push_str(&mut t, f.as_str());
                t
            },
            None => String::new(),
        };
        push_str(&mut self.code, t.as_str());
        Ok(())
    }

    /// Appends one input signal per utxo data attribute to the code.
    pub fn generate_signals(&mut self)
        ensures
            final(self)@ == with_code(
                old(self)@,
                match old(self)@.utxo_data {
                    Some(d) => signals_text(d),
                    None => seq![],
                },
            ),
    {
        let extra = match &self.utxo_data {
            Some(data) => signals_code(data),
            None => String::new(),
        };
        push_str(&mut self.code, extra.as_str());
    }
}



fn clone_text(s: &String) -> (r: String)
    ensures
        r@ == s@,
{
    s.clone()
}

fn clone_opt_text(o: &Option<String>) -> (r: Option<String>)
    ensures
        opt_text(r) == opt_text(*o),
{
    match o {
        Some(s) => Some(s.clone()),
        None => None,
    }
}

fn clone_cond(c: &Option<(Comparator, String)>) -> (r: Option<(Comparator, String)>)
    ensures
        cond_view(r) == cond_view(*c),
{
    match c {
        Some(t) => Some((t.0, t.1.clone())),
        None => None,
    }
}

fn clone_data(d: &Option<Vec<UtxoDatum>>) -> (r: Option<Vec<UtxoDatum>>)
    ensures
        data_view(r) == data_view(*d),
{
    match d {
        Some(v) => {
            let mut out: Vec<UtxoDatum> = Vec::new();
            let mut i: usize = 0;
            while i < v.len()
                invariant
                    i <= v@.len(),
                    data_seq(out@) == data_seq(v@).take(i as int),
                decreases v@.len() - i,
            {
                let ghost before = out@;
                out.push((v[i].0.clone(), v[i].1, clone_opt_text(&v[i].2)));
                assert(data_seq(out@) =~= data_seq(before).push(datum_view(v@[i as int])));
                assert(data_seq(v@).take(i + 1) =~= data_seq(v@).take(i as int).push(
                    datum_view(v@[i as int]),
                ));
                i += 1;
            }
            assert(data_seq(v@).take(i as int) =~= data_seq(v@));
            Some(out)
        },
        None => None,
    }
}

fn words_of_str(line: &str) -> (r: Vec<Vec<char>>)
    ensures
        seqs_of(r@) == words(line@),
{
    let lv = chars_of(line);
    words_of(&lv)
}

impl CheckUtxo {
    /// A copy of the declaration.
    pub fn duplicate(&self) -> (r: CheckUtxo)
        ensures
            r@ == self@,
    {
        CheckUtxo {
            code: clone_text(&self.code),
            name: clone_text(&self.name),
            is_in_utxo: self.is_in_utxo,
            is_out_utxo: self.is_out_utxo,
            instruction_name: clone_opt_text(&self.instruction_name),
            no_utxos: clone_text(&self.no_utxos),
            amount_sol: clone_cond(&self.amount_sol),
            amount_spl: clone_cond(&self.amount_spl),
            asset_spl: clone_cond(&self.asset_spl),
            app_data_hash: clone_cond(&self.app_data_hash),
            utxo_data: clone_data(&self.utxo_data),
        }
    }

    fn property_is_unset(&self, prop: &Vec<char>) -> (r: bool)
        ensures
            r == property_unset(self@, prop@),
    {
        (eq_str(prop, "amountSol") && self.amount_sol.is_none()) || (eq_str(prop, "amountSpl")
            && self.amount_spl.is_none()) || (eq_str(prop, "assetSpl") && self.asset_spl.is_none())
            || (eq_str(prop, "appDataHash") && self.app_data_hash.is_none())
    }

    /// Whether `process_line` can read the line.
    pub fn line_readable(&self, line: &str) -> (r: bool)
        ensures
            r == process_line_defined(self@, line@),
    {
        let parts = words_of_str(line);
        if parts.len() < 1 {
            return false;
        }
        assert(seqs_of(parts@)[0] == parts@[0]@);
        if contains_str(&parts[0], "utxoData") {
            return true;
        }
        if parts.len() < 2 {
            return false;
        }
        assert(seqs_of(parts@)[1] == parts@[1]@);
        !(eq_str(&parts[1], "==") && self.property_is_unset(&parts[0])) || parts.len() >= 3
    }

    /// Whether `process_utxo_data_line` can read the line.
    pub fn data_line_readable(&self, line: &str) -> (r: bool)
        ensures
            r == data_line_defined(self@, line@),
    {
        let parts = words_of_str(line);
        if words_have_brace(&parts) {
            return true;
        }
        let adds = parts.len() == 1 || (parts.len() >= 3 && {
            assert(seqs_of(parts@)[1] == parts@[1]@);
            eq_str(&parts[1], "==")
        });
        !adds || self.utxo_data.is_some()
    }

    /// Whether `from_input` can read the lines.
    pub fn input_readable(&self, input: &Vec<String>) -> (r: bool)
        ensures
            r == from_input_defined(self@, strs_of(input@), 0),
    {
        let ghost lines = strs_of(input@);
        let mut cur = self.duplicate();
        let mut found: i32 = 0;
        let mut i: usize = 0;
        assert(lines.subrange(0, lines.len() as int) =~= lines);
        while i < input.len()
            invariant
                i <= input@.len(),
                lines == strs_of(input@),
                lines.len() == input@.len(),
                from_input_defined(cur@, lines.subrange(i as int, lines.len() as int), found)
                    == from_input_defined(self@, lines, 0),
            decreases input@.len() - i,
        {
            let ghost rest = lines.subrange(i as int, lines.len() as int);
            assert(rest[0] == input@[i as int]@);
            assert(rest.drop_first() =~= lines.subrange(i + 1, lines.len() as int));
            let line = input[i].as_str();
            if found == 0 && cur.utxo_data.is_some() || found == 1 {
                if !cur.data_line_readable(line) {
                    return false;
                }
                match cur.process_utxo_data_line(line) {
                    Ok(f) => {
                        found = f;
                    },
                    Err(_) => {
                        return true;
                    },
                }
            } else if found == 0 {
                if !cur.line_readable(line) {
                    return false;
                }
                match cur.process_line(line) {
                    Ok(_) => {},
                    Err(_) => {
                        return true;
                    },
                }
            }
            i += 1;
        }
        true
    }
}

// ------------------------------------------------------------------
// Extracting a bracketed block
// ------------------------------------------------------------------
/// Where a line-by-line scan for a bracketed block stands.
pub struct ScanState {
    /// Inside the block that follows the header.
    pub in_block: bool,
    /// The header has been seen.
    pub found: bool,
    /// Inside a block comment.
    pub commented: bool,
    pub block: Seq<Seq<char>>,
    pub header: Seq<char>,
    pub remaining: Seq<Seq<char>>,
}

pub open spec fn scan_start() -> ScanState {
    ScanState {
        in_block: false,
        found: false,
        commented: false,
        block: seq![],
        header: seq![],
        remaining: seq![],
    }
}

/// The scan after one more line: line comments are dropped, block comments
/// and the lines outside the block are kept, the first line that starts with
/// `start` is the header, an opening brace line is dropped, and a line that
/// closes a brace ends the block.
pub open spec fn scan_step(st: ScanState, raw: Seq<char>, start: Seq<char>) -> ScanState {
    let line = trim(CharClass::WhiteSpace, raw);
    if starts_with(line, "//"@) {
        st
    } else if starts_with(line, "/* "@) || starts_with(line, "/**"@) {
        ScanState { commented: true, remaining: st.remaining.push(line), ..st }
    } else if st.commented {
        ScanState {
            commented: !contains_seq(line, "*/"@),
            remaining: st.remaining.push(line),
            ..st
        }
    } else if !st.found && starts_with(line, start) {
        ScanState { found: true, in_block: true, header: line, ..st }
    } else if st.found && starts_with(line, "{"@) {
        st
    } else if (st.in_block && st.found && starts_with(line, "}"@)) || ends_with(line, "}"@) {
        ScanState { in_block: false, remaining: st.remaining.push(line), ..st }
    } else if st.in_block {
        ScanState { block: st.block.push(line), ..st }
    } else {
        ScanState { remaining: st.remaining.push(line), ..st }
    }
}

pub open spec fn scan_lines(st: ScanState, ls: Seq<Seq<char>>, start: Seq<char>) -> ScanState
    decreases ls.len(),
{
    if ls.len() == 0 {
        st
    } else {
        scan_lines(scan_step(st, ls[0], start), ls.drop_first(), start)
    }
}

/// The scan of a whole text.
pub open spec fn scan(input: Seq<char>, start: Seq<char>) -> ScanState {
    scan_lines(scan_start(), lines(input), start)
}

fn strings_of(v: &Vec<Vec<char>>) -> (r: Vec<String>)
    ensures
        strs_of(r@) == seqs_of(v@),
{
    let mut r: Vec<String> = Vec::new();
    let mut i: usize = 0;
    while i < v.len()
        invariant
            i <= v@.len(),
            strs_of(r@) == seqs_of(v@).take(i as int),
        decreases v@.len() - i,
    {
        let ghost before = r@;
        r.push(string_of(v[i].as_slice()));
        assert(strs_of(r@) =~= strs_of(before).push(v@[i as int]@));
        assert(seqs_of(v@).take(i + 1) =~= seqs_of(v@).take(i as int).push(v@[i as int]@));
        i += 1;
    }
    assert(seqs_of(v@).take(i as int) =~= seqs_of(v@));
    r
}

/// The scan of `input` for the block after a line starting with
/// `starting_string`: whether the block is still open at the end, whether the
/// header was found, the block's lines, the header, and the other lines.
fn scan_text(input: &String, starting_string: &String) -> (r: (bool, bool, Vec<Vec<char>>, Vec<char>, Vec<Vec<char>>))
    ensures
        r.0 == scan(input@, starting_string@).in_block,
        r.1 == scan(input@, starting_string@).found,
        seqs_of(r.2@) == scan(input@, starting_string@).block,
        r.3@ == scan(input@, starting_string@).header,
        seqs_of(r.4@) == scan(input@, starting_string@).remaining,
{
    let iv = chars_of(input.as_str());
    let ls = lines_of(&iv);
    let start = chars_of(starting_string.as_str());
    let mut in_block = false;
    let mut found = false;
    let mut commented = false;
    let mut block: Vec<Vec<char>> = Vec::new();
    let mut header: Vec<char> = Vec::new();
    let mut remaining: Vec<Vec<char>> = Vec::new();
    let ghost all = seqs_of(ls@);
    let mut i: usize = 0;
    assert(all.subrange(0, all.len() as int) =~= all);
    assert(seqs_of(block@) =~= Seq::<Seq<char>>::empty());
    assert(seqs_of(remaining@) =~= Seq::<Seq<char>>::empty());
    assert(header@ =~= Seq::<char>::empty());
    while i < ls.len()
        invariant
            i <= ls@.len(),
            all == seqs_of(ls@),
            all == lines(iv@),
            iv@ == input@,
            start@ == starting_string@,
            scan_lines(
                ScanState {
                    in_block,
                    found,
                    commented,
                    block: seqs_of(block@),
                    header: header@,
                    remaining: seqs_of(remaining@),
                },
                all.subrange(i as int, all.len() as int),
                start@,
            ) == scan(input@, starting_string@),
        decreases ls@.len() - i,
    {
        let ghost rest = all.subrange(i as int, all.len() as int);
        assert(rest[0] == ls@[i as int]@);
        assert(rest.drop_first() =~= all.subrange(i + 1, all.len() as int));
        let line = trim_chars(CharClass::WhiteSpace, &ls[i]);
        let ghost before_rem = seqs_of(remaining@);
        let ghost before_block = seqs_of(block@);
        if starts_with_str(&line, "//") {
        } else if starts_with_str(&line, "/* ") || starts_with_str(&line, "/**") {
            commented = true;
            remaining.push(line);
            assert(seqs_of(remaining@) =~= before_rem.push(trim(CharClass::WhiteSpace, rest[0])));
        } else if commented {
            if contains_str(&line, "*/") {
                commented = false;
            }
            remaining.push(line);
            assert(seqs_of(remaining@) =~= before_rem.push(trim(CharClass::WhiteSpace, rest[0])));
        } else if !found && starts_with_vec(&line, &start) {
            found = true;
            in_block = true;
            header = line;
        } else if found && starts_with_str(&line, "{") {
        } else if (in_block && found && starts_with_str(&line, "}")) || ends_with_str(&line, "}") {
            in_block = false;
            remaining.push(line);
            assert(seqs_of(remaining@) =~= before_rem.push(trim(CharClass::WhiteSpace, rest[0])));
        } else if in_block {
            block.push(line);
            assert(seqs_of(block@) =~= before_block.push(trim(CharClass::WhiteSpace, rest[0])));
        } else {
            remaining.push(line);
            assert(seqs_of(remaining@) =~= before_rem.push(trim(CharClass::WhiteSpace, rest[0])));
        }
        i += 1;
    }
    assert(all.subrange(i as int, all.len() as int) =~= Seq::<Seq<char>>::empty());
    (in_block, found, block, header, remaining)
}

/// Whether the block that the scan of `input` opens is still open at the end
/// of the text: such a text has no block to return.
pub fn block_left_open(input: &String, starting_string: &String) -> (r: bool)
    ensures
        r == scan(input@, starting_string@).in_block,
{
    scan_text(input, starting_string).0
}

/// Splits `input` into the lines of the block that follows the first line
/// starting with `starting_string`, that header line, and the other lines
/// joined by line feeds; the flag tells that no header was found. Without a
/// header, a `critical` search fails. Only the first block is read, so
/// `multiple` changes nothing.
pub fn parse_general_between_curly_brackets(
    input: &String,
    starting_string: &String,
    critical: bool,
    multiple: bool,
) -> (r: Result<(Vec<String>, String, String, bool), MacroCircomError>)
    requires
        !scan(input@, starting_string@).in_block,
    ensures
        ({
            let st = scan(input@, starting_string@);
            if !st.found && critical {
                result_view(r) == Err::<(Vec<String>, String, String, bool), ErrorView>(
                    ErrorView::ParseInstanceError(input@),
                )
            } else {
                r matches Ok((block, header, rest, empty)) && strs_of(block@) == st.block && header@
                    == st.header && rest@ == join(st.remaining, "\n"@) && empty == !st.found
            }
        }),
{
    let (_in_block, found, block, header, remaining) = scan_text(input, starting_string);
    if !found && critical {
        return Err(MacroCircomError::ParseInstanceError(input.clone()));
    }
    let block_strings = strings_of(&block);
    let header_string = string_of(header.as_slice());
    let rest = join_lines(&remaining, "\n");
    Ok((block_strings, header_string, rest, !found))
}


// ------------------------------------------------------------------
// Expanding declarations
// ------------------------------------------------------------------
/// The declarations that can be expanded: for input or output utxos, with a
/// utxo count, a utxo data list and no array attribute.
pub open spec fn expandable(m: CheckUtxoView) -> bool {
    (m.is_in_utxo || m.is_out_utxo) ==> {
        &&& utxo_count(m) is Some
        &&& m.utxo_data is Some
        &&& forall|i: int|
            0 <= i < m.utxo_data.unwrap().len() ==> !is_array_name(
                #[trigger] m.utxo_data.unwrap()[i].0,
            )
    }
}

/// The code a declaration gets: its signals, components, instruction hash and
/// comparison checks, in that order.
#[verifier::opaque]
pub open spec fn expansion_text(m: CheckUtxoView) -> Seq<char> {
    let n = utxo_count(m).unwrap();
    let d = m.utxo_data.unwrap();
    signals_text(d) + components_text(m, n) + instruction_hash_text(m, d, n)
        + comparison_checks_text(m, d)
}

impl CheckUtxo {
    /// Appends the whole expansion of a declaration to its code.
    pub fn expand(&mut self) -> (r: Result<(), MacroCircomError>)
        requires
            expandable(old(self)@),
        ensures
            !old(self).is_in_utxo && !old(self).is_out_utxo ==> result_view(r) == Err::<(), ErrorView>(
                ErrorView::CheckUtxoInvalidFormat,
            ),
            old(self).is_in_utxo || old(self).is_out_utxo ==> r is Ok && final(self)@ == with_code(
                old(self)@,
                expansion_text(old(self)@),
            ),
    {
        let ghost m = self@;
        self.generate_signals();
        let ghost m1 = self@;
        match self.generate_components() {
            Ok(_) => {},
            Err(e) => {
                return Err(e);
            },
        }
        let ghost m2 = self@;
        assert(components_text(m1, utxo_count(m).unwrap()) == components_text(m, utxo_count(m).unwrap()));
        match self.generate_instruction_hash_code() {
            Ok(_) => {},
            Err(e) => {
                return Err(e);
            },
        }
        let ghost m3 = self@;
        assert(instruction_hash_text(m2, m.utxo_data.unwrap(), utxo_count(m).unwrap())
            == instruction_hash_text(m, m.utxo_data.unwrap(), utxo_count(m).unwrap()));
        match self.generate_comparison_check_code() {
            Ok(_) => {},
            Err(e) => {
                return Err(e);
            },
        }
        assert(comparison_checks_text(m3, m.utxo_data.unwrap()) == comparison_checks_text(m, m.utxo_data.unwrap()));
        assert(self@.code =~= m.code + expansion_text(m)) by {
            reveal(expansion_text);
        }
        Ok(())
    }
}

/// Whatever the number of utxos, the instruction hash check of a declaration
/// is enabled by the flag of its own kind of utxo: `isInAppUtxo<Name>` for
/// input utxos, `isOutAppUtxo<Name>` for output utxos.
pub proof fn lemma_instruction_hash_enabled_by_own_kind(m: CheckUtxoView, data: Seq<DatumView>, n: nat)
    ensures
        occurs_in(
            instruction_hash_text(m, data, n),
            "].enabled <== is"@ + upper_camel_case(
                if m.is_in_utxo {
                    "in"@
                } else {
                    "out"@
                },
            ) + "AppUtxo"@ + upper_camel_case(m.name),
        ),
{
    let uname = upper_camel_case(m.name);
    let up = upper_camel_case(lower_prefix_text(m));
    let p = "].enabled <== is"@ + up + "AppUtxo"@ + uname;
    let head = hasher_text(n, uname, data.len()) + hash_inputs_text(n, uname, data);
    if n > 1 {
        let x = "for (var inUtxoIndex = 0; inUtxoIndex < nIns; inUtxoIndex++) {\n\tcheckInstructionHash"@
            + uname + "[appUtxoIndex][inUtxoIndex] = ForceEqualIfEnabled();\n\tcheckInstructionHash"@
            + uname
            + "[appUtxoIndex][inUtxoIndex].in[0] <== inAppDataHash[inUtxoIndex];\n\tcheckInstructionHash"@
            + uname + "[appUtxoIndex][inUtxoIndex].in[1] <== instructionHasher"@ + uname
            + "[appUtxoIndex].out;\n\tcheckInstructionHash"@ + uname + "[appUtxoIndex][inUtxoIndex"@;
        let y = "[appUtxoIndex][inUtxoIndex];\n}\n}\n"@;
        reveal_strlit("[appUtxoIndex][inUtxoIndex].enabled <== is");
        reveal_strlit("[appUtxoIndex][inUtxoIndex");
        reveal_strlit("].enabled <== is");
        assert("[appUtxoIndex][inUtxoIndex].enabled <== is"@ =~= "[appUtxoIndex][inUtxoIndex"@ + "].enabled <== is"@);
        assert(instruction_hash_text(m, data, n) =~= (head + x) + p + y);
        lemma_occurs_in_middle(head + x, p, y);
    } else {
        let x = "for (var inUtxoIndex = 0; inUtxoIndex < nIns; inUtxoIndex++) {\n\tcheckInstructionHash"@
            + uname + "[inUtxoIndex] = ForceEqualIfEnabled();\n\tcheckInstructionHash"@ + uname
            + "[inUtxoIndex].in[0] <== inAppDataHash[inUtxoIndex];\n\tcheckInstructionHash"@ + uname
            + "[inUtxoIndex].in[1] <== instructionHasher"@ + uname
            + ".out;\n\tcheckInstructionHash"@ + uname + "[inUtxoIndex"@;
        let y = "[inUtxoIndex];\n}\n"@;
        reveal_strlit("[inUtxoIndex].enabled <== is");
        reveal_strlit("[inUtxoIndex");
        reveal_strlit("].enabled <== is");
        assert("[inUtxoIndex].enabled <== is"@ =~= "[inUtxoIndex"@ + "].enabled <== is"@);
        assert(instruction_hash_text(m, data, n) =~= (head + x) + p + y);
        lemma_occurs_in_middle(head + x, p, y);
    }
}

proof fn lemma_equal_check_split(
    name: Seq<char>,
    assigning: Seq<char>,
    var_camel: Seq<char>,
    comparing: Seq<char>,
    instruction: Seq<char>,
    prefix_camel: Seq<char>,
)
    ensures
        equal_check_text(name, assigning, var_camel, comparing, instruction, prefix_camel) == ("check"@
            + (var_camel + name) + "[i] = ForceEqualIfEnabled();\n        check"@ + (var_camel + name)
            + "[i].in[0] <== "@ + assigning + ";\n        check"@ + (var_camel + name) + "[i].in[1] <== "@
            + comparing) + (";\n        check"@ + var_camel + name + "[i].enabled <== is"@ + prefix_camel
            + "AppUtxo"@ + name + "[i] * "@ + instruction + ";\n        "@),
{
    assert(equal_check_text(name, assigning, var_camel, comparing, instruction, prefix_camel) =~= ("check"@
        + (var_camel + name) + "[i] = ForceEqualIfEnabled();\n        check"@ + (var_camel + name)
        + "[i].in[0] <== "@ + assigning + ";\n        check"@ + (var_camel + name) + "[i].in[1] <== "@
        + comparing) + (";\n        check"@ + var_camel + name + "[i].enabled <== is"@ + prefix_camel
        + "AppUtxo"@ + name + "[i] * "@ + instruction + ";\n        "@));
}

proof fn lemma_comparison_checks_split(m: CheckUtxoView, d: Seq<DatumView>, first: Seq<char>, after: Seq<char>)
    requires
        m.amount_sol is Some,
        cond_check_text(
            m.amount_sol,
            m.name,
            "AmountSol"@,
            ".inputs[0]"@,
            lower_prefix_text(m) + "AmountsHasher[i]"@,
            instruction_text(m),
            lower_prefix_text(m),
        ) == first + after,
    ensures
        comparison_checks_text(m, d) == ("for (var i = 0; i < "@ + utxo_type_text(m) + "; i++) {\n"@
            + first) + (after + comparison_rest_text(m, d)),
{
    let p = lower_prefix_text(m);
    let inst = instruction_text(m);
    let l = "for (var i = 0; i < "@ + utxo_type_text(m) + "; i++) {\n"@;
    let c2 = cond_check_text(m.app_data_hash, m.name, "AppDataHash"@, ""@, p + "AppDataHash[i].out"@, inst, p);
    let c3 = cond_check_text(m.amount_spl, m.name, "AmountSpl"@, ".inputs[1]"@, p + "AmountsHasher[i]"@, inst, p);
    let c4 = cond_check_text(m.asset_spl, m.name, "AssetSpl"@, ".inputs[4]"@, p + "CommitmentHasher[i]"@, inst, p);
    let dc = data_checks_text(d, m.name, inst, p);
    let close = "}\n"@;
    assert(comparison_checks_text(m, d) == l + (first + after) + c2 + c3 + c4 + dc + close);
    assert(comparison_rest_text(m, d) == c2 + c3 + c4 + dc + close);
    lemma_split_first(l, first, after, c2, c3, c4, dc, close);
}

proof fn lemma_split_first(
    l: Seq<char>,
    f: Seq<char>,
    a: Seq<char>,
    c2: Seq<char>,
    c3: Seq<char>,
    c4: Seq<char>,
    d: Seq<char>,
    e: Seq<char>,
)
    ensures
        l + (f + a) + c2 + c3 + c4 + d + e == (l + f) + (a + (c2 + c3 + c4 + d + e)),
{
    assert(l + (f + a) + c2 + c3 + c4 + d + e =~= (l + f) + (a + (c2 + c3 + c4 + d + e)));
}

proof fn lemma_occurs_after(
    e: Seq<char>,
    head: Seq<char>,
    checks: Seq<char>,
    lead: Seq<char>,
    first: Seq<char>,
    tail: Seq<char>,
)
    requires
        e == head + checks,
        checks == (lead + first) + tail,
    ensures
        occurs_in(e, lead + first),
{
    vstd::seq_lib::lemma_concat_associative(head, lead + first, tail);
    lemma_occurs_in_middle(head, lead + first, tail);
}

proof fn lemma_expansion_parts(m: CheckUtxoView)
    ensures
        expansion_text(m) == signals_text(m.utxo_data.unwrap()) + components_text(m, utxo_count(m).unwrap())
            + instruction_hash_text(m, m.utxo_data.unwrap(), utxo_count(m).unwrap()) + comparison_checks_text(
            m,
            m.utxo_data.unwrap(),
        ),
{
    reveal(expansion_text);
}

/// The expansion of a declaration that compares its amountSol with a value
/// enforces it: the loop over the utxos of its kind starts with a check
/// forced equal whose first input is the utxo's amount and whose second is
/// the declared value.
pub proof fn lemma_expansion_checks_amount_sol(m: CheckUtxoView, c: Comparator, v: Seq<char>)
    requires
        m.amount_sol == Some((c, v)),
    ensures
        ({
            let p = if m.is_in_utxo {
                "in"@
            } else {
                "out"@
            };
            let utype = if m.is_in_utxo {
                "nIns"@
            } else {
                "nOuts"@
            };
            let check = upper_camel_case(p + "AmountSol"@) + m.name;
            occurs_in(
                expansion_text(m),
                "for (var i = 0; i < "@ + utype + "; i++) {\n"@ + "check"@ + check
                    + "[i] = ForceEqualIfEnabled();\n        check"@ + check + "[i].in[0] <== "@ + p
                    + "AmountsHasher[i]"@ + ".inputs[0]"@ + ";\n        check"@ + check
                    + "[i].in[1] <== "@ + v,
            )
        }),
{
    let n = utxo_count(m).unwrap();
    let d = m.utxo_data.unwrap();
    let p = lower_prefix_text(m);
    let inst = instruction_text(m);
    let v_camel = upper_camel_case(p + "AmountSol"@);
    let check = v_camel + m.name;
    let assigning = p + "AmountsHasher[i]"@ + ".inputs[0]"@;
    lemma_equal_check_split(m.name, assigning, v_camel, v, inst, upper_camel_case(p));
    let first = "check"@ + check + "[i] = ForceEqualIfEnabled();\n        check"@ + check + "[i].in[0] <== "@
        + assigning + ";\n        check"@ + check + "[i].in[1] <== "@ + v;
    let after = ";\n        check"@ + v_camel + m.name + "[i].enabled <== is"@ + upper_camel_case(p)
        + "AppUtxo"@ + m.name + "[i] * "@ + inst + ";\n        "@;
    lemma_comparison_checks_split(m, d, first, after);
    let lead = "for (var i = 0; i < "@ + utxo_type_text(m) + "; i++) {\n"@;
    let head = signals_text(d) + components_text(m, n) + instruction_hash_text(m, d, n);
    let tail = after + comparison_rest_text(m, d);
    lemma_expansion_parts(m);
    lemma_occurs_after(expansion_text(m), head, comparison_checks_text(m, d), lead, first, tail);
    lemma_amount_sol_loop_start(m, v);
}

proof fn lemma_amount_sol_loop_start(m: CheckUtxoView, v: Seq<char>)
    ensures
        ({
            let p = if m.is_in_utxo {
                "in"@
            } else {
                "out"@
            };
            let utype = if m.is_in_utxo {
                "nIns"@
            } else {
                "nOuts"@
            };
            let check = upper_camel_case(p + "AmountSol"@) + m.name;
            "for (var i = 0; i < "@ + utype + "; i++) {\n"@ + "check"@ + check
                + "[i] = ForceEqualIfEnabled();\n        check"@ + check + "[i].in[0] <== "@ + p
                + "AmountsHasher[i]"@ + ".inputs[0]"@ + ";\n        check"@ + check + "[i].in[1] <== "@ + v
        }) == ("for (var i = 0; i < "@ + utxo_type_text(m) + "; i++) {\n"@) + ("check"@ + (upper_camel_case(
            lower_prefix_text(m) + "AmountSol"@,
        ) + m.name) + "[i] = ForceEqualIfEnabled();\n        check"@ + (upper_camel_case(
            lower_prefix_text(m) + "AmountSol"@,
        ) + m.name) + "[i].in[0] <== "@ + (lower_prefix_text(m) + "AmountsHasher[i]"@ + ".inputs[0]"@)
            + ";\n        check"@ + (upper_camel_case(lower_prefix_text(m) + "AmountSol"@) + m.name)
            + "[i].in[1] <== "@ + v),
{
    let p = lower_prefix_text(m);
    let check = upper_camel_case(p + "AmountSol"@) + m.name;
    assert("for (var i = 0; i < "@ + utxo_type_text(m) + "; i++) {\n"@ + "check"@ + check
        + "[i] = ForceEqualIfEnabled();\n        check"@ + check + "[i].in[0] <== "@ + p
        + "AmountsHasher[i]"@ + ".inputs[0]"@ + ";\n        check"@ + check + "[i].in[1] <== "@ + v =~= (
    "for (var i = 0; i < "@ + utxo_type_text(m) + "; i++) {\n"@) + ("check"@ + check
        + "[i] = ForceEqualIfEnabled();\n        check"@ + check + "[i].in[0] <== "@ + (p
        + "AmountsHasher[i]"@ + ".inputs[0]"@) + ";\n        check"@ + check + "[i].in[1] <== "@ + v));
}

/// The statements that force the check component `check<name>` of one utxo
/// to hold `input` and `value` as equal.
pub open spec fn forced_equal(check: Seq<char>, input: Seq<char>, value: Seq<char>) -> Seq<char> {
    "check"@ + check + "[i] = ForceEqualIfEnabled();\n        check"@ + check + "[i].in[0] <== "@ + input
        + ";\n        check"@ + check + "[i].in[1] <== "@ + value
}

proof fn lemma_occurs_in_within(s: Seq<char>, p: Seq<char>, a: Seq<char>, b: Seq<char>)
    requires
        occurs_in(s, p),
    ensures
        occurs_in(a + s + b, p),
{
    let k = choose|k: int| occurs_at(s, p, k);
    lemma_occurs_at_within(s, p, k, a, b);
}

proof fn lemma_cond_check_forces(
    opt: Option<(Comparator, Seq<char>)>,
    name: Seq<char>,
    var: Seq<char>,
    idx: Seq<char>,
    value: Seq<char>,
    instruction: Seq<char>,
    prefix: Seq<char>,
)
    requires
        opt is Some,
    ensures
        occurs_in(
            cond_check_text(opt, name, var, idx, value, instruction, prefix),
            forced_equal(upper_camel_case(prefix + var) + name, value + idx, opt.unwrap().1),
        ),
{
    let v_camel = upper_camel_case(prefix + var);
    lemma_equal_check_split(name, value + idx, v_camel, opt.unwrap().1, instruction, upper_camel_case(prefix));
    let f = forced_equal(v_camel + name, value + idx, opt.unwrap().1);
    let after = ";\n        check"@ + v_camel + name + "[i].enabled <== is"@ + upper_camel_case(prefix)
        + "AppUtxo"@ + name + "[i] * "@ + instruction + ";\n        "@;
    assert(cond_check_text(opt, name, var, idx, value, instruction, prefix) == f + after);
    lemma_occurs_in_middle(seq![], f, after);
    assert(seq![] + f + after =~= f + after);
}

proof fn lemma_data_checks_force(data: Seq<DatumView>, name: Seq<char>, instruction: Seq<char>, prefix: Seq<char>, j: int)
    requires
        0 <= j < data.len(),
        data[j].1 is Some,
        data[j].2 is Some,
    ensures
        occurs_in(
            data_checks_text(data, name, instruction, prefix),
            forced_equal(upper_camel_case(prefix + ("UtxoData"@ + upper_camel_case(data[j].0))) + name, data[j].0 + ""@, data[j].2.unwrap()),
        ),
    decreases data.len(),
{
    let pat = forced_equal(upper_camel_case(prefix + ("UtxoData"@ + upper_camel_case(data[j].0))) + name, data[j].0 + ""@, data[j].2.unwrap());
    let d = data.last();
    let prev = data_checks_text(data.drop_last(), name, instruction, prefix);
    let last = match (d.1, d.2) {
        (Some(comp), Some(v)) => cond_check_text(
            Some((comp, v)),
            name,
            "UtxoData"@ + upper_camel_case(d.0),
            ""@,
            d.0,
            instruction,
            prefix,
        ),
        _ => seq![],
    };
    assert(data_checks_text(data, name, instruction, prefix) == prev + last);
    if j == data.len() - 1 {
        let opt = Some((data[j].1.unwrap(), data[j].2.unwrap()));
        lemma_cond_check_forces(opt, name, "UtxoData"@ + upper_camel_case(d.0), ""@, d.0, instruction, prefix);
        lemma_occurs_in_within(last, pat, prev, seq![]);
        assert(prev + last + seq![] =~= prev + last);
    } else {
        lemma_data_checks_force(data.drop_last(), name, instruction, prefix, j);
        lemma_occurs_in_within(prev, pat, seq![], last);
        assert(seq![] + prev + last =~= prev + last);
    }
}

proof fn lemma_seven_parts(
    l: Seq<char>,
    c1: Seq<char>,
    c2: Seq<char>,
    c3: Seq<char>,
    c4: Seq<char>,
    d: Seq<char>,
    e: Seq<char>,
)
    ensures
        l + c1 + c2 + c3 + c4 + d + e == l + c1 + (c2 + c3 + c4 + d + e),
        l + c1 + c2 + c3 + c4 + d + e == (l + c1) + c2 + (c3 + c4 + d + e),
        l + c1 + c2 + c3 + c4 + d + e == (l + c1 + c2) + c3 + (c4 + d + e),
        l + c1 + c2 + c3 + c4 + d + e == (l + c1 + c2 + c3) + c4 + (d + e),
        l + c1 + c2 + c3 + c4 + d + e == (l + c1 + c2 + c3 + c4) + d + e,
{
    assert(l + c1 + c2 + c3 + c4 + d + e =~= l + c1 + (c2 + c3 + c4 + d + e));
    assert(l + c1 + c2 + c3 + c4 + d + e =~= (l + c1) + c2 + (c3 + c4 + d + e));
    assert(l + c1 + c2 + c3 + c4 + d + e =~= (l + c1 + c2) + c3 + (c4 + d + e));
    assert(l + c1 + c2 + c3 + c4 + d + e =~= (l + c1 + c2 + c3) + c4 + (d + e));
}

/// The expansion of a declaration enforces every comparison it declares:
/// for amountSol, appDataHash, amountSpl and assetSpl, and for each utxo
/// data attribute with a comparator and a value, a check component of its
/// own is forced to hold the utxo's field and the declared value as equal.
/// The fields come from the utxo's hashers: the amounts hasher's inputs 0
/// and 1, the app data hash's output, the commitment hasher's input 4, and
/// the attribute's own signal.
#[verifier::spinoff_prover]
pub proof fn lemma_expansion_enforces_comparisons(m: CheckUtxoView)
    ensures
        ({
            let p = if m.is_in_utxo {
                "in"@
            } else {
                "out"@
            };
            let e = expansion_text(m);
            &&& m.amount_sol is Some ==> occurs_in(
                e,
                forced_equal(upper_camel_case(p + "AmountSol"@) + m.name, p + "AmountsHasher[i].inputs[0]"@, m.amount_sol.unwrap().1),
            )
            &&& m.app_data_hash is Some ==> occurs_in(
                e,
                forced_equal(upper_camel_case(p + "AppDataHash"@) + m.name, p + "AppDataHash[i].out"@, m.app_data_hash.unwrap().1),
            )
            &&& m.amount_spl is Some ==> occurs_in(
                e,
                forced_equal(upper_camel_case(p + "AmountSpl"@) + m.name, p + "AmountsHasher[i].inputs[1]"@, m.amount_spl.unwrap().1),
            )
            &&& m.asset_spl is Some ==> occurs_in(
                e,
                forced_equal(upper_camel_case(p + "AssetSpl"@) + m.name, p + "CommitmentHasher[i].inputs[4]"@, m.asset_spl.unwrap().1),
            )
            &&& forall|j: int|
                0 <= j < m.utxo_data.unwrap().len() && m.utxo_data is Some && (#[trigger] m.utxo_data.unwrap()[j]).1 is Some
                    && m.utxo_data.unwrap()[j].2 is Some ==> occurs_in(
                    e,
                    forced_equal(
                        upper_camel_case(p + ("UtxoData"@ + upper_camel_case(m.utxo_data.unwrap()[j].0))) + m.name,
                        m.utxo_data.unwrap()[j].0,
                        m.utxo_data.unwrap()[j].2.unwrap(),
                    ),
                )
        }),
{
    let n = utxo_count(m).unwrap();
    let d = m.utxo_data.unwrap();
    let p = lower_prefix_text(m);
    let inst = instruction_text(m);
    let name = m.name;
    let l = "for (var i = 0; i < "@ + utxo_type_text(m) + "; i++) {\n"@;
    let c1 = cond_check_text(m.amount_sol, name, "AmountSol"@, ".inputs[0]"@, p + "AmountsHasher[i]"@, inst, p);
    let c2 = cond_check_text(m.app_data_hash, name, "AppDataHash"@, ""@, p + "AppDataHash[i].out"@, inst, p);
    let c3 = cond_check_text(m.amount_spl, name, "AmountSpl"@, ".inputs[1]"@, p + "AmountsHasher[i]"@, inst, p);
    let c4 = cond_check_text(m.asset_spl, name, "AssetSpl"@, ".inputs[4]"@, p + "CommitmentHasher[i]"@, inst, p);
    let dc = data_checks_text(d, name, inst, p);
    let close = "}\n"@;
    let checks = comparison_checks_text(m, d);
    assert(checks == l + c1 + c2 + c3 + c4 + dc + close);
    let head = signals_text(d) + components_text(m, n) + instruction_hash_text(m, d, n);
    lemma_expansion_parts(m);
    lemma_literal_joins(p);
    if m.amount_sol is Some {
        lemma_cond_check_forces(m.amount_sol, name, "AmountSol"@, ".inputs[0]"@, p + "AmountsHasher[i]"@, inst, p);
        let f = forced_equal(upper_camel_case(p + "AmountSol"@) + name, p + "AmountsHasher[i]"@ + ".inputs[0]"@, m.amount_sol.unwrap().1);
        lemma_part_in_checks(head, l, c1, c2, c3, c4, dc, close, 1, f);
    }
    if m.app_data_hash is Some {
        lemma_cond_check_forces(m.app_data_hash, name, "AppDataHash"@, ""@, p + "AppDataHash[i].out"@, inst, p);
        let f = forced_equal(upper_camel_case(p + "AppDataHash"@) + name, p + "AppDataHash[i].out"@ + ""@, m.app_data_hash.unwrap().1);
        lemma_part_in_checks(head, l, c1, c2, c3, c4, dc, close, 2, f);
    }
    if m.amount_spl is Some {
        lemma_cond_check_forces(m.amount_spl, name, "AmountSpl"@, ".inputs[1]"@, p + "AmountsHasher[i]"@, inst, p);
        let f = forced_equal(upper_camel_case(p + "AmountSpl"@) + name, p + "AmountsHasher[i]"@ + ".inputs[1]"@, m.amount_spl.unwrap().1);
        lemma_part_in_checks(head, l, c1, c2, c3, c4, dc, close, 3, f);
    }
    if m.asset_spl is Some {
        lemma_cond_check_forces(m.asset_spl, name, "AssetSpl"@, ".inputs[4]"@, p + "CommitmentHasher[i]"@, inst, p);
        let f = forced_equal(upper_camel_case(p + "AssetSpl"@) + name, p + "CommitmentHasher[i]"@ + ".inputs[4]"@, m.asset_spl.unwrap().1);
        lemma_part_in_checks(head, l, c1, c2, c3, c4, dc, close, 4, f);
    }
    assert forall|j: int|
        0 <= j < m.utxo_data.unwrap().len() && m.utxo_data is Some && (#[trigger] m.utxo_data.unwrap()[j]).1 is Some
            && m.utxo_data.unwrap()[j].2 is Some implies occurs_in(
            expansion_text(m),
            forced_equal(
                upper_camel_case(p + ("UtxoData"@ + upper_camel_case(m.utxo_data.unwrap()[j].0))) + m.name,
                m.utxo_data.unwrap()[j].0,
                m.utxo_data.unwrap()[j].2.unwrap(),
            ),
        ) by {
        lemma_data_checks_force(d, name, inst, p, j);
        let f = forced_equal(upper_camel_case(p + ("UtxoData"@ + upper_camel_case(d[j].0))) + name, d[j].0 + ""@, d[j].2.unwrap());
        lemma_part_in_checks(head, l, c1, c2, c3, c4, dc, close, 5, f);
        assert(d[j].0 + ""@ =~= d[j].0);
    }
}

proof fn lemma_literal_joins(p: Seq<char>)
    ensures
        p + "AmountsHasher[i]"@ + ".inputs[0]"@ == p + "AmountsHasher[i].inputs[0]"@,
        p + "AppDataHash[i].out"@ + ""@ == p + "AppDataHash[i].out"@,
        p + "AmountsHasher[i]"@ + ".inputs[1]"@ == p + "AmountsHasher[i].inputs[1]"@,
        p + "CommitmentHasher[i]"@ + ".inputs[4]"@ == p + "CommitmentHasher[i].inputs[4]"@,
{
    reveal_strlit("");
    reveal_strlit("AmountsHasher[i]");
    reveal_strlit(".inputs[0]");
    reveal_strlit(".inputs[1]");
    reveal_strlit(".inputs[4]");
    reveal_strlit("CommitmentHasher[i]");
    reveal_strlit("AmountsHasher[i].inputs[0]");
    reveal_strlit("AmountsHasher[i].inputs[1]");
    reveal_strlit("CommitmentHasher[i].inputs[4]");
    assert(p + "AmountsHasher[i]"@ + ".inputs[0]"@ =~= p + "AmountsHasher[i].inputs[0]"@);
    assert(p + "AppDataHash[i].out"@ + ""@ =~= p + "AppDataHash[i].out"@);
    assert(p + "AmountsHasher[i]"@ + ".inputs[1]"@ =~= p + "AmountsHasher[i].inputs[1]"@);
    assert(p + "CommitmentHasher[i]"@ + ".inputs[4]"@ =~= p + "CommitmentHasher[i].inputs[4]"@);
}

/// What stands in one part of the comparison loop stands in the expansion.
proof fn lemma_part_in_checks(
    head: Seq<char>,
    l: Seq<char>,
    c1: Seq<char>,
    c2: Seq<char>,
    c3: Seq<char>,
    c4: Seq<char>,
    dc: Seq<char>,
    close: Seq<char>,
    k: int,
    f: Seq<char>,
)
    requires
        1 <= k <= 5,
        k == 1 ==> occurs_in(c1, f),
        k == 2 ==> occurs_in(c2, f),
        k == 3 ==> occurs_in(c3, f),
        k == 4 ==> occurs_in(c4, f),
        k == 5 ==> occurs_in(dc, f),
    ensures
        occurs_in(head + (l + c1 + c2 + c3 + c4 + dc + close), f),
{
    let checks = l + c1 + c2 + c3 + c4 + dc + close;
    lemma_seven_parts(l, c1, c2, c3, c4, dc, close);
    if k == 1 {
        lemma_occurs_in_within(c1, f, l, c2 + c3 + c4 + dc + close);
    } else if k == 2 {
        lemma_occurs_in_within(c2, f, l + c1, c3 + c4 + dc + close);
    } else if k == 3 {
        lemma_occurs_in_within(c3, f, l + c1 + c2, c4 + dc + close);
    } else if k == 4 {
        lemma_occurs_in_within(c4, f, l + c1 + c2 + c3, dc + close);
    } else {
        lemma_occurs_in_within(dc, f, l + c1 + c2 + c3 + c4, close);
    }
    lemma_occurs_in_within(checks, f, head, seq![]);
    assert(head + checks + seq![] =~= head + checks);
}

proof fn lemma_signals_declare(data: Seq<DatumView>, j: int)
    requires
        0 <= j < data.len(),
    ensures
        occurs_in(signals_text(data), "signal input "@ + data[j].0 + ";\n"@),
    decreases data.len(),
{
    let prev = signals_text(data.drop_last());
    let last = input_signal_text(data.last().0);
    let pat = "signal input "@ + data[j].0 + ";\n"@;
    if j == data.len() - 1 {
        lemma_occurs_in_middle(prev, last, seq![]);
        assert(prev + last + seq![] =~= prev + last);
    } else {
        lemma_signals_declare(data.drop_last(), j);
        lemma_occurs_in_within(prev, pat, seq![], last);
        assert(seq![] + prev + last =~= prev + last);
    }
}

proof fn lemma_hash_inputs_take(n: nat, uname: Seq<char>, data: Seq<DatumView>, j: int)
    requires
        0 <= j < data.len(),
    ensures
        occurs_in(hash_inputs_text(n, uname, data), hash_input_line(n, uname, j as nat, data[j].0)),
    decreases data.len(),
{
    let prev = hash_inputs_text(n, uname, data.drop_last());
    let last = hash_input_line(n, uname, (data.len() - 1) as nat, data.last().0);
    let pat = hash_input_line(n, uname, j as nat, data[j].0);
    if j == data.len() - 1 {
        lemma_occurs_in_middle(prev, last, seq![]);
        assert(prev + last + seq![] =~= prev + last);
    } else {
        lemma_hash_inputs_take(n, uname, data.drop_last(), j);
        lemma_occurs_in_within(prev, pat, seq![], last);
        assert(seq![] + prev + last =~= prev + last);
    }
}

/// Every utxo data attribute of a declaration is an input signal of the
/// circuit and goes, at its own position, into the instruction hasher,
/// which takes as many inputs as there are attributes.
pub proof fn lemma_expansion_hashes_attributes(m: CheckUtxoView, j: int)
    requires
        m.utxo_data is Some,
        utxo_count(m) is Some,
        0 <= j < m.utxo_data.unwrap().len(),
    ensures
        ({
            let d = m.utxo_data.unwrap();
            let uname = upper_camel_case(m.name);
            let e = expansion_text(m);
            &&& occurs_in(e, "signal input "@ + d[j].0 + ";\n"@)
            &&& occurs_in(e, "instructionHasher"@ + uname + " = Poseidon("@ + decimal(d.len()) + ");\n"@)
                || occurs_in(e, "instructionHasher"@ + uname + "[appUtxoIndex] = Poseidon("@ + decimal(d.len()) + ");\n"@)
            &&& utxo_count(m) == Some(1nat) ==> occurs_in(
                e,
                "instructionHasher"@ + uname + ".inputs["@ + decimal(j as nat) + "] <== "@ + d[j].0 + ";\n"@,
            )
            &&& utxo_count(m) != Some(1nat) ==> occurs_in(
                e,
                "instructionHasher"@ + uname + "[appUtxoIndex].inputs["@ + decimal(j as nat) + "] <== "@ + d[j].0
                    + "[appUtxoIndex];\n"@,
            )
        }),
{
    let n = utxo_count(m).unwrap();
    let d = m.utxo_data.unwrap();
    let uname = upper_camel_case(m.name);
    let sig = signals_text(d);
    let comps = components_text(m, n);
    let hasher = hasher_text(n, uname, d.len());
    let inputs = hash_inputs_text(n, uname, d);
    let fe = force_equal_text(n, uname, upper_camel_case(lower_prefix_text(m)));
    let checks = comparison_checks_text(m, d);
    lemma_expansion_parts(m);
    assert(instruction_hash_text(m, d, n) == hasher + inputs + fe);
    let e = expansion_text(m);
    assert(e == sig + comps + (hasher + inputs + fe) + checks);
    lemma_six_parts(sig, comps, hasher, inputs, fe, checks);
    lemma_signals_declare(d, j);
    lemma_occurs_in_within(sig, "signal input "@ + d[j].0 + ";\n"@, seq![], comps + (hasher + inputs + fe) + checks);
    lemma_hasher_named(n, uname, d.len());
    let h = if n > 1 {
        "instructionHasher"@ + uname + "[appUtxoIndex] = Poseidon("@ + decimal(d.len()) + ");\n"@
    } else {
        "instructionHasher"@ + uname + " = Poseidon("@ + decimal(d.len()) + ");\n"@
    };
    lemma_occurs_in_within(hasher, h, sig + comps, inputs + fe + checks);
    lemma_hash_inputs_take(n, uname, d, j);
    let line = hash_input_line(n, uname, j as nat, d[j].0);
    lemma_occurs_in_within(inputs, line, sig + comps + hasher, fe + checks);
}

proof fn lemma_six_parts(s: Seq<char>, c: Seq<char>, h: Seq<char>, i: Seq<char>, f: Seq<char>, k: Seq<char>)
    ensures
        s + c + (h + i + f) + k == seq![] + s + (c + (h + i + f) + k),
        s + c + (h + i + f) + k == (s + c) + h + (i + f + k),
        s + c + (h + i + f) + k == (s + c + h) + i + (f + k),
{
    assert(s + c + (h + i + f) + k =~= seq![] + s + (c + (h + i + f) + k));
    assert(s + c + (h + i + f) + k =~= (s + c) + h + (i + f + k));
    assert(s + c + (h + i + f) + k =~= (s + c + h) + i + (f + k));
}

proof fn lemma_hasher_named(n: nat, uname: Seq<char>, len: nat)
    ensures
        n > 1 ==> occurs_in(
            hasher_text(n, uname, len),
            "instructionHasher"@ + uname + "[appUtxoIndex] = Poseidon("@ + decimal(len) + ");\n"@,
        ),
        n <= 1 ==> occurs_in(
            hasher_text(n, uname, len),
            "instructionHasher"@ + uname + " = Poseidon("@ + decimal(len) + ");\n"@,
        ),
{
    let hasher = hasher_text(n, uname, len);
    if n > 1 {
        let lead = "for (var appUtxoIndex = 0; appUtxoIndex < nAppUtxos; appUtxoIndex++) {\n\t"@;
        let h = "instructionHasher"@ + uname + "[appUtxoIndex] = Poseidon("@ + decimal(len) + ");\n"@;
        reveal_strlit("for (var appUtxoIndex = 0; appUtxoIndex < nAppUtxos; appUtxoIndex++) {\n\tinstructionHasher");
        reveal_strlit("for (var appUtxoIndex = 0; appUtxoIndex < nAppUtxos; appUtxoIndex++) {\n\t");
        reveal_strlit("instructionHasher");
        assert(hasher =~= lead + h + seq![]);
        lemma_occurs_in_middle(lead, h, seq![]);
    } else {
        lemma_occurs_in_middle(seq![], hasher, seq![]);
        assert(seq![] + hasher + seq![] =~= hasher);
    }
}

/// Each of six texts put together stands in the whole.
proof fn lemma_parts_of_six(a0: Seq<char>, a1: Seq<char>, a2: Seq<char>, a3: Seq<char>, a4: Seq<char>, a5: Seq<char>)
    ensures
        occurs_in(a0 + a1 + a2 + a3 + a4 + a5, a0),
        occurs_in(a0 + a1 + a2 + a3 + a4 + a5, a1),
        occurs_in(a0 + a1 + a2 + a3 + a4 + a5, a2),
        occurs_in(a0 + a1 + a2 + a3 + a4 + a5, a3),
        occurs_in(a0 + a1 + a2 + a3 + a4 + a5, a4),
{
    let w = a0 + a1 + a2 + a3 + a4 + a5;
    assert(w.subrange(0, a0.len() as int) =~= a0);
    assert(occurs_at(w, a0, 0));
    let k1 = a0.len() as int;
    assert(w.subrange(k1, k1 + a1.len()) =~= a1);
    assert(occurs_at(w, a1, k1));
    let k2 = k1 + a1.len();
    assert(w.subrange(k2, k2 + a2.len()) =~= a2);
    assert(occurs_at(w, a2, k2));
    let k3 = k2 + a2.len();
    assert(w.subrange(k3, k3 + a3.len()) =~= a3);
    assert(occurs_at(w, a3, k3));
    let k4 = k3 + a3.len();
    assert(w.subrange(k4, k4 + a4.len()) =~= a4);
    assert(occurs_at(w, a4, k4));
}

proof fn lemma_in_components(m: CheckUtxoView, n: nat)
    ensures
        ({
            let utype = utxo_type_text(m);
            let prefix = upper_prefix_text(m);
            let lname = lower_camel_case(m.name);
            let c = components_text(m, n);
            &&& occurs_in(c, "var "@ + lname + " = "@ + decimal(n) + ";\n"@)
            &&& m.amount_sol is Some ==> occurs_in(c, component_line(prefix, "AmountSol"@, m.name, lname, utype))
            &&& m.amount_spl is Some ==> occurs_in(c, component_line(prefix, "AmountSpl"@, m.name, lname, utype))
            &&& m.asset_spl is Some ==> occurs_in(c, component_line(prefix, "AssetSpl"@, m.name, lname, utype))
            &&& m.app_data_hash is Some ==> occurs_in(
                c,
                component_line(prefix, "AppDataHash"@, m.name, lname, utype),
            )
        }),
{
    let utype = utxo_type_text(m);
    let prefix = upper_prefix_text(m);
    let lname = lower_camel_case(m.name);
    let v = "var "@ + lname + " = "@ + decimal(n) + ";\n"@;
    let w1 = when(m.amount_sol is Some, component_line(prefix, "AmountSol"@, m.name, lname, utype));
    let w2 = when(m.amount_spl is Some, component_line(prefix, "AmountSpl"@, m.name, lname, utype));
    let w3 = when(m.asset_spl is Some, component_line(prefix, "AssetSpl"@, m.name, lname, utype));
    let w4 = when(m.app_data_hash is Some, component_line(prefix, "AppDataHash"@, m.name, lname, utype));
    let t = match m.utxo_data {
        Some(d) => data_components_text(d, prefix, m.name, lname, utype) + hash_components_text(
            n,
            m.name,
            lname,
            utype,
        ),
        None => seq![],
    };
    assert(components_text(m, n) == v + w1 + w2 + w3 + w4 + t);
    lemma_parts_of_six(v, w1, w2, w3, w4, t);
}

/// Every comparison a declaration makes has its check component declared,
/// one per utxo of its kind and named after the declaration, after the
/// variable that holds the number of utxos.
pub proof fn lemma_expansion_declares_components(m: CheckUtxoView)
    requires
        utxo_count(m) is Some,
    ensures
        ({
            let utype = if m.is_in_utxo {
                "nIns"@
            } else {
                "nOuts"@
            };
            let prefix = if m.is_in_utxo {
                "In"@
            } else {
                "Out"@
            };
            let lname = lower_camel_case(m.name);
            let e = expansion_text(m);
            let decl = |prop: Seq<char>|
                "component check"@ + prefix + prop + m.name + "["@ + lname + "]["@ + utype + "];\n"@;
            &&& occurs_in(e, "var "@ + lname + " = "@ + decimal(utxo_count(m).unwrap()) + ";\n"@)
            &&& m.amount_sol is Some ==> occurs_in(e, decl("AmountSol"@))
            &&& m.amount_spl is Some ==> occurs_in(e, decl("AmountSpl"@))
            &&& m.asset_spl is Some ==> occurs_in(e, decl("AssetSpl"@))
            &&& m.app_data_hash is Some ==> occurs_in(e, decl("AppDataHash"@))
        }),
{
    let n = utxo_count(m).unwrap();
    let d = m.utxo_data.unwrap();
    let sig = signals_text(d);
    let c = components_text(m, n);
    let rest = instruction_hash_text(m, d, n) + comparison_checks_text(m, d);
    lemma_expansion_parts(m);
    assert(expansion_text(m) == sig + c + rest) by {
        assert(expansion_text(m) =~= sig + c + rest);
    }
    lemma_in_components(m, n);
    let utype = utxo_type_text(m);
    let prefix = upper_prefix_text(m);
    let lname = lower_camel_case(m.name);
    lemma_occurs_in_within(c, "var "@ + lname + " = "@ + decimal(n) + ";\n"@, sig, rest);
    if m.amount_sol is Some {
        lemma_occurs_in_within(c, component_line(prefix, "AmountSol"@, m.name, lname, utype), sig, rest);
    }
    if m.amount_spl is Some {
        lemma_occurs_in_within(c, component_line(prefix, "AmountSpl"@, m.name, lname, utype), sig, rest);
    }
    if m.asset_spl is Some {
        lemma_occurs_in_within(c, component_line(prefix, "AssetSpl"@, m.name, lname, utype), sig, rest);
    }
    if m.app_data_hash is Some {
        lemma_occurs_in_within(c, component_line(prefix, "AppDataHash"@, m.name, lname, utype), sig, rest);
    }
}

/// Expands each declaration in order. `contents` comes back unchanged; the
/// declarations are the ones read from it. Fails at the first declaration
/// that is neither for input nor for output utxos.
pub fn generate_check_utxo_code(
    contents: &String,
    utxo_type: &String,
    checked_utxos: Vec<CheckUtxo>,
) -> (r: Result<(String, Vec<CheckUtxo>), MacroCircomError>)
    requires
        forall|i: int| 0 <= i < checked_utxos@.len() ==> expandable(#[trigger] checked_utxos@[i]@),
    ensures
        match r {
            Ok((rest, list)) => {
                &&& rest@ == contents@
                &&& list@.len() == checked_utxos@.len()
                &&& forall|i: int|
                    0 <= i < list@.len() ==> (#[trigger] checked_utxos@[i]).is_in_utxo
                        || checked_utxos@[i].is_out_utxo
                &&& forall|i: int|
                    0 <= i < list@.len() ==> (#[trigger] list@[i])@ == with_code(
                        checked_utxos@[i]@,
                        expansion_text(checked_utxos@[i]@),
                    )
            },
            Err(e) => e@ == ErrorView::CheckUtxoInvalidFormat && exists|i: int|
                0 <= i < checked_utxos@.len() && !(#[trigger] checked_utxos@[i]).is_in_utxo
                    && !checked_utxos@[i].is_out_utxo,
        },
{
    let ghost orig = checked_utxos@;
    let mut pending = checked_utxos;
    let mut done: Vec<CheckUtxo> = Vec::new();
    while pending.len() > 0
        invariant
            done@.len() + pending@.len() == orig.len(),
            orig == checked_utxos@,
            forall|i: int| 0 <= i < pending@.len() ==> pending@[i] == orig[done@.len() + i],
            forall|i: int| 0 <= i < orig.len() ==> expandable(#[trigger] orig[i]@),
            forall|i: int|
                0 <= i < done@.len() ==> (#[trigger] orig[i]).is_in_utxo || orig[i].is_out_utxo,
            forall|i: int|
                0 <= i < done@.len() ==> (#[trigger] done@[i])@ == with_code(
                    orig[i]@,
                    expansion_text(orig[i]@),
                ),
        decreases pending@.len(),
    {
        let ghost k = done@.len() as int;
        let mut u = pending.remove(0);
        assert(u == orig[k]);
        match u.expand() {
            Ok(_) => {},
            Err(e) => {
                assert(!orig[k].is_in_utxo && !orig[k].is_out_utxo);
                assert(e@ == ErrorView::CheckUtxoInvalidFormat);
                assert(0 <= k < orig.len());
                assert(orig == checked_utxos@);
                assert(exists|i: int|
                    0 <= i < checked_utxos@.len() && !(#[trigger] checked_utxos@[i]).is_in_utxo
                        && !checked_utxos@[i].is_out_utxo);
                return Err(e);
            },
        }
        done.push(u);
    }
    Ok((contents.clone(), done))
}

} // verus!
