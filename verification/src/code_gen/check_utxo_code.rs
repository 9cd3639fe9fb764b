//! Check-utxo declarations expanded in one piece through a handlebars
//! template: the data that fills the template is built and checked here, the
//! rendering is done by the `handlebars` crate.
use crate::casing::{to_upper_camel_case, upper_camel_case};
use crate::check_utxo::{cond_view, data_seq, data_view, opt_text, DatumView, UtxoDatum};
use crate::errors::{result_view, ErrorView, MacroCircomError};
use crate::json::{json_array, json_string, lemma_escape_plain, json_string_of, push_json_array, push_json_string};
use crate::text::{chars_of, copy_str, decimal, is_white_space, starts_with, parse_u64, parse_unsigned, push_decimal, push_str, strs_of};
use vstd::prelude::*;

pub use crate::check_utxo::Comparator;

verus! {

/// The template a checked utxo is expanded with.
pub const CHECK_UTXO_TEMPLATE: &'static str = r#"

signal input isInAppUtxo{{utxoName}}[{{is_ins}}];

{{#with this}}{{#each allUtxoData}}
signal input {{this.input}};
{{/each}}{{/with}}



{{#each comparisonsUtxoData}} {{#with this}}
component check{{this.component}}{{../../utxoName}}[{{../../is_ins}}];
{{/with}}{{/each}}

{{#if comparisons}}
{{#each comparisons}}{{#with this}}
component check{{this.component}}{{../../utxoName}}[{{../../is_ins}}];
{{/with}}{{/each}}
for (var i = 0; i < {{is_ins}}; i++) {

    {{#with this}} {{#each comparisons}} 

    check{{is_In}}{{this.component}}{{../../utxoName}}[i] = ForceEqualIfEnabled();
    check{{is_In}}{{this.component}}{{../../utxoName}}[i].in[0] <== {{../../is_in}}{{this.hasher}}[i].{{this.input}};
    check{{is_In}}{{this.component}}{{../../utxoName}}[i].in[1] <== {{this.comparison}};
    check{{is_In}}{{this.component}}{{../../utxoName}}[i].enabled <== {{../../isInAppUtxo}}{{../../utxoName}}[i] * {{../../instruction}};

{{/each}}{{/with}}

{{#each comparisonsUtxoData}}{{#with this}}

    check{{this.component}}{{../../utxoName}}[i] = ForceEqualIfEnabled();
    check{{this.component}}{{../../utxoName}}[i].in[0] <== {{this.input}};
    check{{this.component}}{{../../utxoName}}[i].in[1] <== {{this.comparison}};
    check{{this.component}}{{../../utxoName}}[i].enabled <== isInAppUtxo{{../../utxoName}}[i] * {{../../instruction}};

{{/with}}{{/each}}
}
{{/if}}

{{#if len_utxo_data_non_zero}}
component instructionHasher{{utxoName}} = Poseidon({{utxo_data_length}});

{{#with this}}{{#each allUtxoData}}
instructionHasher{{../../utxoName}}.inputs[{{@index}}] <== {{this.input}};
{{/each}}{{/with}}

component checkInstructionHash{{utxoName}}[{{is_ins}}];
for (var inUtxoIndex = 0; inUtxoIndex < nIns; inUtxoIndex++) {
    checkInstructionHash{{utxoName}}[inUtxoIndex] = ForceEqualIfEnabled();
    checkInstructionHash{{utxoName}}[inUtxoIndex].in[0] <== {{is_in}}AppDataHash[inUtxoIndex];
    checkInstructionHash{{utxoName}}[inUtxoIndex].in[1] <== instructionHasher{{utxoName}}.out;
    checkInstructionHash{{utxoName}}[inUtxoIndex].enabled <== is{{is_In}}AppUtxo{{utxoName}}[inUtxoIndex];
}
{{/if}}
"#;

#[derive(PartialEq, Debug, Clone)]
pub struct CheckUtxo {
    pub code: String,
    pub name: String,
    pub is_in_utxo: bool,
    pub is_out_utxo: bool,
    pub instruction_name: Option<String>,
    pub no_utxos: String,
    pub amount_sol: Option<(Comparator, String)>,
    pub amount_spl: Option<(Comparator, String)>,
    pub asset_spl: Option<(Comparator, String)>,
    pub app_data_hash: Option<(Comparator, String)>,
    pub verifier_address: Option<(Comparator, String)>,
    pub blinding: Option<(Comparator, String)>,
    pub tx_version: Option<(Comparator, String)>,
    pub pool_type: Option<(Comparator, String)>,
    pub utxo_data: Option<Vec<UtxoDatum>>,
}

/// A checked utxo with its texts taken by value.
pub struct CheckUtxoView {
    pub code: Seq<char>,
    pub name: Seq<char>,
    pub is_in_utxo: bool,
    pub is_out_utxo: bool,
    pub instruction_name: Option<Seq<char>>,
    pub no_utxos: Seq<char>,
    pub amount_sol: Option<(Comparator, Seq<char>)>,
    pub amount_spl: Option<(Comparator, Seq<char>)>,
    pub asset_spl: Option<(Comparator, Seq<char>)>,
    pub app_data_hash: Option<(Comparator, Seq<char>)>,
    pub verifier_address: Option<(Comparator, Seq<char>)>,
    pub blinding: Option<(Comparator, Seq<char>)>,
    pub tx_version: Option<(Comparator, Seq<char>)>,
    pub pool_type: Option<(Comparator, Seq<char>)>,
    pub utxo_data: Option<Seq<DatumView>>,
}

impl View for CheckUtxo {
    type V = CheckUtxoView;

    open spec fn view(&self) -> CheckUtxoView {
        CheckUtxoView {
            code: self.code@,
            name: self.name@,
            is_in_utxo: self.is_in_utxo,
            is_out_utxo: self.is_out_utxo,
            instruction_name: opt_text(self.instruction_name),
            no_utxos: self.no_utxos@,
            amount_sol: cond_view(self.amount_sol),
            amount_spl: cond_view(self.amount_spl),
            asset_spl: cond_view(self.asset_spl),
            app_data_hash: cond_view(self.app_data_hash),
            verifier_address: cond_view(self.verifier_address),
            blinding: cond_view(self.blinding),
            tx_version: cond_view(self.tx_version),
            pool_type: cond_view(self.pool_type),
            utxo_data: data_view(self.utxo_data),
        }
    }
}

// ------------------------------------------------------------------
// Template data
// ------------------------------------------------------------------
pub open spec fn comparison_entry(
    component: Seq<char>,
    hasher: Seq<char>,
    input: Seq<char>,
    comparison: Seq<char>,
) -> Seq<char> {
    "{\"component\":"@ + json_string(component) + ",\"hasher\":"@ + json_string(hasher)
        + ",\"input\":"@ + json_string(input) + ",\"comparison\":"@ + json_string(comparison) + "}"@
}

pub open spec fn opt_entry(
    c: Option<(Comparator, Seq<char>)>,
    component: Seq<char>,
    hasher: Seq<char>,
    input: Seq<char>,
) -> Seq<Seq<char>> {
    match c {
        Some(t) => seq![comparison_entry(component, hasher, input, t.1)],
        None => seq![],
    }
}

/// The comparisons of the utxo's own fields, in the order they are checked.
pub open spec fn comparison_entries(m: CheckUtxoView) -> Seq<Seq<char>> {
    opt_entry(m.amount_sol, "AmountSol"@, "AmountsHasher"@, "inputs[0]"@) + opt_entry(
        m.app_data_hash,
        "AppDataHash"@,
        "AppDataHash"@,
        "out"@,
    ) + opt_entry(m.amount_spl, "AmountSpl"@, "AmountsHasher"@, "inputs[1]"@) + opt_entry(
        m.asset_spl,
        "AssetSpl"@,
        "CommitmentHasher"@,
        "inputs[4]"@,
    ) + opt_entry(m.pool_type, "PoolType"@, "CommitmentHasher"@, "inputs[6]"@) + opt_entry(
        m.verifier_address,
        "VerifierAddress"@,
        "CommitmentHasher"@,
        "inputs[7]"@,
    ) + opt_entry(m.blinding, "Blinding"@, "CommitmentHasher"@, "inputs[3]"@) + opt_entry(
        m.tx_version,
        "TxVersion"@,
        "CommitmentHasher"@,
        "inputs[0]"@,
    )
}

proof fn lemma_contains_concat(s: Seq<Seq<char>>, t: Seq<Seq<char>>, e: Seq<char>)
    requires
        s.contains(e) || t.contains(e),
    ensures
        (s + t).contains(e),
{
    if s.contains(e) {
        let k = choose|k: int| 0 <= k < s.len() && s[k] == e;
        assert((s + t)[k] == e);
    } else {
        let k = choose|k: int| 0 <= k < t.len() && t[k] == e;
        assert((s + t)[s.len() + k] == e);
    }
}

proof fn lemma_in_eight(
    o1: Seq<Seq<char>>,
    o2: Seq<Seq<char>>,
    o3: Seq<Seq<char>>,
    o4: Seq<Seq<char>>,
    o5: Seq<Seq<char>>,
    o6: Seq<Seq<char>>,
    o7: Seq<Seq<char>>,
    o8: Seq<Seq<char>>,
    e: Seq<char>,
)
    requires
        o1.contains(e) || o2.contains(e) || o3.contains(e) || o4.contains(e) || o5.contains(e)
            || o6.contains(e) || o7.contains(e) || o8.contains(e),
    ensures
        (o1 + o2 + o3 + o4 + o5 + o6 + o7 + o8).contains(e),
{
    if o1.contains(e) || o2.contains(e) {
        lemma_contains_concat(o1, o2, e);
    }
    if o1.contains(e) || o2.contains(e) || o3.contains(e) {
        lemma_contains_concat(o1 + o2, o3, e);
    }
    if o1.contains(e) || o2.contains(e) || o3.contains(e) || o4.contains(e) {
        lemma_contains_concat(o1 + o2 + o3, o4, e);
    }
    if o1.contains(e) || o2.contains(e) || o3.contains(e) || o4.contains(e) || o5.contains(e) {
        lemma_contains_concat(o1 + o2 + o3 + o4, o5, e);
    }
    if o1.contains(e) || o2.contains(e) || o3.contains(e) || o4.contains(e) || o5.contains(e)
        || o6.contains(e) {
        lemma_contains_concat(o1 + o2 + o3 + o4 + o5, o6, e);
    }
    if o1.contains(e) || o2.contains(e) || o3.contains(e) || o4.contains(e) || o5.contains(e)
        || o6.contains(e) || o7.contains(e) {
        lemma_contains_concat(o1 + o2 + o3 + o4 + o5 + o6, o7, e);
    }
    lemma_contains_concat(o1 + o2 + o3 + o4 + o5 + o6 + o7, o8, e);
}

/// How many of the utxo's own fields are compared.
pub open spec fn compared_fields(m: CheckUtxoView) -> nat {
    (if m.amount_sol is Some { 1nat } else { 0nat }) + (if m.app_data_hash is Some { 1nat } else { 0nat })
        + (if m.amount_spl is Some { 1nat } else { 0nat }) + (if m.asset_spl is Some { 1nat } else { 0nat })
        + (if m.pool_type is Some { 1nat } else { 0nat }) + (if m.verifier_address is Some { 1nat } else { 0nat })
        + (if m.blinding is Some { 1nat } else { 0nat }) + (if m.tx_version is Some { 1nat } else { 0nat })
}

/// The template data holds one comparison per compared field of the utxo and
/// no other, each naming the field's check component, the hasher the field
/// is read from, that hasher's signal, and the declared value: amountSol and
/// amountSpl from the amounts hasher's inputs 0 and 1, appDataHash from its
/// own hash's output, and assetSpl, poolType, verifierAddress, blinding and
/// txVersion from the commitment hasher's inputs 4, 6, 7, 3 and 0.
pub proof fn lemma_template_comparisons(m: CheckUtxoView)
    ensures
        comparison_entries(m).len() == compared_fields(m),
        m.amount_sol matches Some((c, v)) ==> comparison_entries(m).contains(
            comparison_entry("AmountSol"@, "AmountsHasher"@, "inputs[0]"@, v),
        ),
        m.app_data_hash matches Some((c, v)) ==> comparison_entries(m).contains(
            comparison_entry("AppDataHash"@, "AppDataHash"@, "out"@, v),
        ),
        m.amount_spl matches Some((c, v)) ==> comparison_entries(m).contains(
            comparison_entry("AmountSpl"@, "AmountsHasher"@, "inputs[1]"@, v),
        ),
        m.asset_spl matches Some((c, v)) ==> comparison_entries(m).contains(
            comparison_entry("AssetSpl"@, "CommitmentHasher"@, "inputs[4]"@, v),
        ),
        m.pool_type matches Some((c, v)) ==> comparison_entries(m).contains(
            comparison_entry("PoolType"@, "CommitmentHasher"@, "inputs[6]"@, v),
        ),
        m.verifier_address matches Some((c, v)) ==> comparison_entries(m).contains(
            comparison_entry("VerifierAddress"@, "CommitmentHasher"@, "inputs[7]"@, v),
        ),
        m.blinding matches Some((c, v)) ==> comparison_entries(m).contains(
            comparison_entry("Blinding"@, "CommitmentHasher"@, "inputs[3]"@, v),
        ),
        m.tx_version matches Some((c, v)) ==> comparison_entries(m).contains(
            comparison_entry("TxVersion"@, "CommitmentHasher"@, "inputs[0]"@, v),
        ),
{
    let o1 = opt_entry(m.amount_sol, "AmountSol"@, "AmountsHasher"@, "inputs[0]"@);
    let o2 = opt_entry(m.app_data_hash, "AppDataHash"@, "AppDataHash"@, "out"@);
    let o3 = opt_entry(m.amount_spl, "AmountSpl"@, "AmountsHasher"@, "inputs[1]"@);
    let o4 = opt_entry(m.asset_spl, "AssetSpl"@, "CommitmentHasher"@, "inputs[4]"@);
    let o5 = opt_entry(m.pool_type, "PoolType"@, "CommitmentHasher"@, "inputs[6]"@);
    let o6 = opt_entry(m.verifier_address, "VerifierAddress"@, "CommitmentHasher"@, "inputs[7]"@);
    let o7 = opt_entry(m.blinding, "Blinding"@, "CommitmentHasher"@, "inputs[3]"@);
    let o8 = opt_entry(m.tx_version, "TxVersion"@, "CommitmentHasher"@, "inputs[0]"@);
    assert(comparison_entries(m) == o1 + o2 + o3 + o4 + o5 + o6 + o7 + o8);
    if m.amount_sol is Some {
        assert(o1[0] == o1[0]);
        lemma_in_eight(o1, o2, o3, o4, o5, o6, o7, o8, o1[0]);
    }
    if m.app_data_hash is Some {
        assert(o2[0] == o2[0]);
        lemma_in_eight(o1, o2, o3, o4, o5, o6, o7, o8, o2[0]);
    }
    if m.amount_spl is Some {
        assert(o3[0] == o3[0]);
        lemma_in_eight(o1, o2, o3, o4, o5, o6, o7, o8, o3[0]);
    }
    if m.asset_spl is Some {
        assert(o4[0] == o4[0]);
        lemma_in_eight(o1, o2, o3, o4, o5, o6, o7, o8, o4[0]);
    }
    if m.pool_type is Some {
        assert(o5[0] == o5[0]);
        lemma_in_eight(o1, o2, o3, o4, o5, o6, o7, o8, o5[0]);
    }
    if m.verifier_address is Some {
        assert(o6[0] == o6[0]);
        lemma_in_eight(o1, o2, o3, o4, o5, o6, o7, o8, o6[0]);
    }
    if m.blinding is Some {
        assert(o7[0] == o7[0]);
        lemma_in_eight(o1, o2, o3, o4, o5, o6, o7, o8, o7[0]);
    }
    if m.tx_version is Some {
        assert(o8[0] == o8[0]);
        lemma_in_eight(o1, o2, o3, o4, o5, o6, o7, o8, o8[0]);
    }
}

/// An attribute that is compared: it has a comparator or a value.
pub open spec fn compared(d: DatumView) -> bool {
    d.1 is Some || d.2 is Some
}

pub open spec fn datum_entry(d: DatumView) -> Seq<char> {
    "{\"component\":"@ + json_string("UtxoData"@ + upper_camel_case(d.0)) + ",\"input\":"@
        + json_string(d.0) + ",\"comparison\":"@ + json_string(d.2.unwrap()) + "}"@
}

pub open spec fn plain_datum_entry(d: DatumView) -> Seq<char> {
    "{\"component\":"@ + json_string("UtxoData"@ + upper_camel_case(d.0)) + ",\"input\":"@
        + json_string(d.0) + "}"@
}

/// The compared attributes.
pub open spec fn data_comparison_entries(data: Seq<DatumView>) -> Seq<Seq<char>>
    decreases data.len(),
{
    if data.len() == 0 {
        seq![]
    } else {
        data_comparison_entries(data.drop_last()) + if compared(data.last()) {
            seq![datum_entry(data.last())]
        } else {
            seq![]
        }
    }
}

/// All attributes, with their comparison where they have one.
pub open spec fn all_data_entries(data: Seq<DatumView>) -> Seq<Seq<char>>
    decreases data.len(),
{
    if data.len() == 0 {
        seq![]
    } else {
        all_data_entries(data.drop_last()) + seq![
            if compared(data.last()) {
                datum_entry(data.last())
            } else {
                plain_datum_entry(data.last())
            },
        ]
    }
}

pub open spec fn json_bool(b: bool) -> Seq<char> {
    if b {
        "true"@
    } else {
        "false"@
    }
}

/// The utxo data attributes of a check; a utxo that is not a program utxo
/// has none.
pub open spec fn attributes(m: CheckUtxoView) -> Seq<DatumView> {
    match m.utxo_data {
        Some(d) => d,
        None => seq![],
    }
}

/// The JSON object that fills the template for this utxo.
#[verifier::opaque]
pub open spec fn template_json(m: CheckUtxoView, data: Seq<DatumView>) -> Seq<char> {
    "{\"is_ins\":"@ + json_string(
        if m.is_in_utxo {
            "nIns"@
        } else {
            "nOuts"@
        },
    ) + ",\"is_In\":"@ + json_string(
        if m.is_in_utxo {
            "In"@
        } else {
            "Out"@
        },
    ) + ",\"is_in\":"@ + json_string(
        if m.is_in_utxo {
            "in"@
        } else {
            "out"@
        },
    ) + ",\"utxoName\":"@ + json_string(upper_camel_case(m.name)) + ",\"instruction\":"@
        + match m.instruction_name {
        Some(s) => json_string(s),
        None => "null"@,
    } + ",\"comparisons\":"@ + json_array(comparison_entries(m)) + ",\"comparisonsUtxoData\":"@
        + json_array(data_comparison_entries(data)) + ",\"allUtxoData\":"@ + json_array(
        all_data_entries(data),
    ) + ",\"utxo_data_length\":"@ + decimal(data.len()) + ",\"len_utxo_data_non_zero\":"@
        + json_bool(data.len() > 0) + "}"@
}

/// The opening fields of the template data: the kind of utxo.
spec fn kind_json(m: CheckUtxoView) -> Seq<char> {
    "{\"is_ins\":"@ + json_string(
        if m.is_in_utxo {
            "nIns"@
        } else {
            "nOuts"@
        },
    ) + ",\"is_In\":"@ + json_string(
        if m.is_in_utxo {
            "In"@
        } else {
            "Out"@
        },
    ) + ",\"is_in\":"@ + json_string(
        if m.is_in_utxo {
            "in"@
        } else {
            "out"@
        },
    )
}

proof fn lemma_prefix_extend(a: Seq<char>, x: Seq<char>, y: Seq<char>)
    requires
        starts_with(x, a),
    ensures
        starts_with(x + y, a),
{
    assert((x + y).subrange(0, a.len() as int) =~= x.subrange(0, a.len() as int));
}

proof fn lemma_template_json_prefix(m: CheckUtxoView, data: Seq<DatumView>)
    ensures
        starts_with(template_json(m, data), kind_json(m)),
{
    let a = kind_json(m);
    assert(a.subrange(0, a.len() as int) =~= a);
    let x1 = a + ",\"utxoName\":"@;
    lemma_prefix_extend(a, a, ",\"utxoName\":"@);
    let x2 = x1 + json_string(upper_camel_case(m.name));
    lemma_prefix_extend(a, x1, json_string(upper_camel_case(m.name)));
    let x3 = x2 + ",\"instruction\":"@;
    lemma_prefix_extend(a, x2, ",\"instruction\":"@);
    let inst = match m.instruction_name {
        Some(s) => json_string(s),
        None => "null"@,
    };
    let x4 = x3 + inst;
    lemma_prefix_extend(a, x3, inst);
    let x5 = x4 + ",\"comparisons\":"@;
    lemma_prefix_extend(a, x4, ",\"comparisons\":"@);
    let x6 = x5 + json_array(comparison_entries(m));
    lemma_prefix_extend(a, x5, json_array(comparison_entries(m)));
    let x7 = x6 + ",\"comparisonsUtxoData\":"@;
    lemma_prefix_extend(a, x6, ",\"comparisonsUtxoData\":"@);
    let x8 = x7 + json_array(data_comparison_entries(data));
    lemma_prefix_extend(a, x7, json_array(data_comparison_entries(data)));
    let x9 = x8 + ",\"allUtxoData\":"@;
    lemma_prefix_extend(a, x8, ",\"allUtxoData\":"@);
    let x10 = x9 + json_array(all_data_entries(data));
    lemma_prefix_extend(a, x9, json_array(all_data_entries(data)));
    let x11 = x10 + ",\"utxo_data_length\":"@;
    lemma_prefix_extend(a, x10, ",\"utxo_data_length\":"@);
    let x12 = x11 + decimal(data.len());
    lemma_prefix_extend(a, x11, decimal(data.len()));
    let x13 = x12 + ",\"len_utxo_data_non_zero\":"@;
    lemma_prefix_extend(a, x12, ",\"len_utxo_data_non_zero\":"@);
    let x14 = x13 + json_bool(data.len() > 0);
    lemma_prefix_extend(a, x13, json_bool(data.len() > 0));
    let x15 = x14 + "}"@;
    lemma_prefix_extend(a, x14, "}"@);
    assert(template_json(m, data) == x15) by {
        reveal(template_json);
    }
}

proof fn lemma_kind_json(m: CheckUtxoView)
    ensures
        kind_json(m) == if m.is_in_utxo {
            "{\"is_ins\":\"nIns\",\"is_In\":\"In\",\"is_in\":\"in\""@
        } else {
            "{\"is_ins\":\"nOuts\",\"is_In\":\"Out\",\"is_in\":\"out\""@
        },
{
    reveal_strlit("{\"is_ins\":");
    reveal_strlit(",\"is_In\":");
    reveal_strlit(",\"is_in\":");
    if m.is_in_utxo {
        reveal_strlit("nIns");
        reveal_strlit("In");
        reveal_strlit("in");
        lemma_escape_plain("nIns"@);
        lemma_escape_plain("In"@);
        lemma_escape_plain("in"@);
        reveal_strlit("{\"is_ins\":\"nIns\",\"is_In\":\"In\",\"is_in\":\"in\"");
        assert(kind_json(m) =~= "{\"is_ins\":\"nIns\",\"is_In\":\"In\",\"is_in\":\"in\""@);
    } else {
        reveal_strlit("nOuts");
        reveal_strlit("Out");
        reveal_strlit("out");
        lemma_escape_plain("nOuts"@);
        lemma_escape_plain("Out"@);
        lemma_escape_plain("out"@);
        reveal_strlit("{\"is_ins\":\"nOuts\",\"is_In\":\"Out\",\"is_in\":\"out\"");
        assert(kind_json(m) =~= "{\"is_ins\":\"nOuts\",\"is_In\":\"Out\",\"is_in\":\"out\""@);
    }
}

/// The template data names the kind of utxo in the three forms the template
/// uses, all agreeing: `nIns`, `In` and `in` for an input utxo, `nOuts`,
/// `Out` and `out` for any other.
pub proof fn lemma_template_data_kind(m: CheckUtxoView, data: Seq<DatumView>)
    ensures
        starts_with(
            template_json(m, data),
            if m.is_in_utxo {
                "{\"is_ins\":\"nIns\",\"is_In\":\"In\",\"is_in\":\"in\""@
            } else {
                "{\"is_ins\":\"nOuts\",\"is_In\":\"Out\",\"is_in\":\"out\""@
            },
        ),
{
    lemma_template_json_prefix(m, data);
    lemma_kind_json(m);
}

/// The attribute lists that can fill the template: every attribute with a
/// comparator also has a value.
pub open spec fn data_complete(data: Seq<DatumView>) -> bool {
    forall|i: int| 0 <= i < data.len() ==> (#[trigger] data[i]).1 is Some ==> data[i].2 is Some
}

fn comparison_entry_code(component: &str, hasher: &str, input: &str, comparison: &str) -> (r: String)
    ensures
        r@ == comparison_entry(component@, hasher@, input@, comparison@),
{
    let mut r = copy_str("{\"component\":");
    push_json_string(&mut r, component);
    push_str(&mut r, ",\"hasher\":");
    push_json_string(&mut r, hasher);
    push_str(&mut r, ",\"input\":");
    push_json_string(&mut r, input);
    push_str(&mut r, ",\"comparison\":");
    push_json_string(&mut r, comparison);
    push_str(&mut r, "}");
    r
}

fn push_opt_entry(
    entries: &mut Vec<String>,
    c: &Option<(Comparator, String)>,
    component: &str,
    hasher: &str,
    input: &str,
)
    ensures
        strs_of(final(entries)@) == strs_of(old(entries)@) + opt_entry(cond_view(*c), component@, hasher@, input@),
{
    let ghost before = strs_of(entries@);
    match c {
        Some(t) => {
            let e = comparison_entry_code(component, hasher, input, t.1.as_str());
            entries.push(e);
        },
        None => {},
    }
    assert(strs_of(entries@) =~= before + opt_entry(cond_view(*c), component@, hasher@, input@));
}

fn datum_entry_code(d: &UtxoDatum, with_comparison: bool) -> (r: String)
    requires
        with_comparison ==> d.2 is Some,
    ensures
        with_comparison ==> r@ == datum_entry(crate::check_utxo::datum_view(*d)),
        !with_comparison ==> r@ == plain_datum_entry(crate::check_utxo::datum_view(*d)),
{
    let upper = to_upper_camel_case(d.0.as_str());
    let mut component = copy_str("UtxoData");
    push_str(&mut component, upper.as_str());
    let mut r = copy_str("{\"component\":");
    push_json_string(&mut r, component.as_str());
    push_str(&mut r, ",\"input\":");
    push_json_string(&mut r, d.0.as_str());
    if with_comparison {
        push_str(&mut r, ",\"comparison\":");
        match &d.2 {
            Some(v) => push_json_string(&mut r, v.as_str()),
            None => {},
        }
    }
    push_str(&mut r, "}");
    r
}

fn data_entries_code(data: &Vec<UtxoDatum>) -> (r: (Vec<String>, Vec<String>))
    requires
        data_complete(data_seq(data@)),
    ensures
        strs_of(r.0@) == data_comparison_entries(data_seq(data@)),
        strs_of(r.1@) == all_data_entries(data_seq(data@)),
{
    let mut compared_entries: Vec<String> = Vec::new();
    let mut all_entries: Vec<String> = Vec::new();
    let ghost dv = data_seq(data@);
    let mut i: usize = 0;
    assert(strs_of(compared_entries@) =~= data_comparison_entries(dv.take(0)));
    assert(strs_of(all_entries@) =~= all_data_entries(dv.take(0)));
    while i < data.len()
        invariant
            i <= data@.len(),
            dv == data_seq(data@),
            data_complete(dv),
            strs_of(compared_entries@) == data_comparison_entries(dv.take(i as int)),
            strs_of(all_entries@) == all_data_entries(dv.take(i as int)),
        decreases data@.len() - i,
    {
        assert(dv.take(i + 1).drop_last() =~= dv.take(i as int));
        assert(dv[i as int] == crate::check_utxo::datum_view(data@[i as int]));
        let d = &data[i];
        let is_compared = d.1.is_some() || d.2.is_some();
        let ghost before_c = strs_of(compared_entries@);
        let ghost before_a = strs_of(all_entries@);
        if is_compared {
            compared_entries.push(datum_entry_code(d, true));
            all_entries.push(datum_entry_code(d, true));
        } else {
            all_entries.push(datum_entry_code(d, false));
        }
        i += 1;
        assert(strs_of(compared_entries@) =~= data_comparison_entries(dv.take(i as int)));
        assert(strs_of(all_entries@) =~= all_data_entries(dv.take(i as int)));
    }
    assert(dv.take(i as int) =~= dv);
    (compared_entries, all_entries)
}

// ------------------------------------------------------------------
// Rendering
// ------------------------------------------------------------------
/// What `handlebars` renders from a template and the JSON value that a text
/// denotes, or `None` when the text is no JSON or the template fails.
pub uninterp spec fn handlebars_render(template: Seq<char>, data_json: Seq<char>) -> Option<Seq<char>>;

/// Reads `data_json` with `serde_json::from_str` into a `serde_json::Value` and
/// renders `template` over it with `handlebars::Handlebars::render_template`
/// (a fresh `Handlebars` with its default settings). Trusted: the result is
/// `handlebars_render` of the two texts, a function of them alone; nothing is
/// claimed of when the reading or the rendering fails.
#[verifier::external_body]
fn render_template_json(template: &str, data_json: &str) -> (r: Option<String>)
    ensures
        match r {
            Some(s) => handlebars_render(template@, data_json@) == Some(s@),
            None => handlebars_render(template@, data_json@) is None,
        },
{
    let data: serde_json::Value = serde_json::from_str(data_json).ok()?;
    handlebars::Handlebars::new().render_template(template, &data).ok()
}

impl CheckUtxo {
    pub fn new() -> (r: Self)
        ensures
            r@ == (CheckUtxoView {
                code: seq![],
                name: seq![],
                is_in_utxo: false,
                is_out_utxo: false,
                instruction_name: None,
                no_utxos: "0"@,
                amount_sol: None,
                amount_spl: None,
                asset_spl: None,
                app_data_hash: None,
                verifier_address: None,
                blinding: None,
                tx_version: None,
                pool_type: None,
                utxo_data: None,
            }),
    {
        CheckUtxo {
            code: String::new(),
            name: String::new(),
            is_in_utxo: false,
            is_out_utxo: false,
            instruction_name: None,
            no_utxos: copy_str("0"),
            amount_sol: None,
            amount_spl: None,
            asset_spl: None,
            app_data_hash: None,
            utxo_data: None,
            verifier_address: None,
            blinding: None,
            tx_version: None,
            pool_type: None,
        }
    }

    /// The JSON text of the data that fills the template for this utxo.
    pub fn template_data(&self) -> (r: String)
        requires
            data_complete(attributes(self@)),
        ensures
            r@ == template_json(self@, attributes(self@)),
    {
        let none: Vec<UtxoDatum> = Vec::new();
        let data: &Vec<UtxoDatum> = match &self.utxo_data {
            Some(d) => d,
            None => &none,
        };
        assert(data_seq(none@) =~= Seq::<DatumView>::empty());
        assert(data_seq(data@) == attributes(self@));
        let mut entries: Vec<String> = Vec::new();
        assert(strs_of(entries@) =~= Seq::<Seq<char>>::empty());
        push_opt_entry(&mut entries, &self.amount_sol, "AmountSol", "AmountsHasher", "inputs[0]");
        push_opt_entry(&mut entries, &self.app_data_hash, "AppDataHash", "AppDataHash", "out");
        push_opt_entry(&mut entries, &self.amount_spl, "AmountSpl", "AmountsHasher", "inputs[1]");
        push_opt_entry(&mut entries, &self.asset_spl, "AssetSpl", "CommitmentHasher", "inputs[4]");
        push_opt_entry(&mut entries, &self.pool_type, "PoolType", "CommitmentHasher", "inputs[6]");
        push_opt_entry(
            &mut entries,
            &self.verifier_address,
            "VerifierAddress",
            "CommitmentHasher",
            "inputs[7]",
        );
        push_opt_entry(&mut entries, &self.blinding, "Blinding", "CommitmentHasher", "inputs[3]");
        push_opt_entry(&mut entries, &self.tx_version, "TxVersion", "CommitmentHasher", "inputs[0]");
        assert(strs_of(entries@) =~= comparison_entries(self@));
        let (compared_entries, all_entries) = data_entries_code(data);
        let mut r = copy_str("{\"is_ins\":");
        push_json_string(
            &mut r,
            if self.is_in_utxo {
                "nIns"
            } else {
                "nOuts"
            },
        );
        push_str(&mut r, ",\"is_In\":");
        push_json_string(
            &mut r,
            if self.is_in_utxo {
                "In"
            } else {
                "Out"
            },
        );
        push_str(&mut r, ",\"is_in\":");
        push_json_string(
            &mut r,
            if self.is_in_utxo {
                "in"
            } else {
                "out"
            },
        );
        push_str(&mut r, ",\"utxoName\":");
        let uname = to_upper_camel_case(self.name.as_str());
        push_json_string(&mut r, uname.as_str());
        push_str(&mut r, ",\"instruction\":");
        let instruction = match &self.instruction_name {
            Some(s) => json_string_of(s.as_str()),
            None => copy_str("null"),
        };
        push_str(&mut r, instruction.as_str());
        push_str(&mut r, ",\"comparisons\":");
        push_json_array(&mut r, &entries);
        push_str(&mut r, ",\"comparisonsUtxoData\":");
        push_json_array(&mut r, &compared_entries);
        push_str(&mut r, ",\"allUtxoData\":");
        push_json_array(&mut r, &all_entries);
        push_str(&mut r, ",\"utxo_data_length\":");
        push_decimal(&mut r, data.len() as u64);
        push_str(&mut r, ",\"len_utxo_data_non_zero\":");
        push_str(
            &mut r,
            if data.len() > 0 {
                "true"
            } else {
                "false"
            },
        );
        push_str(&mut r, "}");
        assert(data_seq(data@).len() == data@.len());
        proof {
            reveal(template_json);
        }
        r
    }

    /// Renders the template for this utxo and appends the result to the code.
    /// A utxo without utxo data is rendered with no attributes. When the
    /// rendering fails, the code is left as it was.
    pub fn generate_code(&mut self) -> (r: Result<(), MacroCircomError>)
        requires
            data_complete(attributes(old(self)@)),
        ensures
            match handlebars_render(
                CHECK_UTXO_TEMPLATE@,
                template_json(old(self)@, attributes(old(self)@)),
            ) {
                Some(t) => r is Ok && final(self)@ == rendered(old(self)@, t),
                None => result_view(r) == Err::<(), ErrorView>(ErrorView::TemplateRenderError)
                    && final(self)@ == old(self)@,
            },
    {
        let data = self.template_data();
        match render_template_json(CHECK_UTXO_TEMPLATE, data.as_str()) {
            Some(res) => {
                push_str(&mut self.code, res.as_str());
                Ok(())
            },
            None => Err(MacroCircomError::TemplateRenderError),
        }
    }
}

/// The utxo with a rendering appended to its code.
pub open spec fn rendered(m: CheckUtxoView, t: Seq<char>) -> CheckUtxoView {
    CheckUtxoView { code: m.code + t, ..m }
}


// ------------------------------------------------------------------
// All checked utxos
// ------------------------------------------------------------------
/// The number of utxos a check is for, read as `u64::from_str` reads it.
pub open spec fn count(m: CheckUtxoView) -> Option<nat> {
    parse_unsigned(m.no_utxos, u64::MAX as nat)
}

/// The checks whose code can be generated: for no utxo, or for one utxo
/// whose attributes (none without utxo data) have a value wherever they have
/// a comparator.
pub open spec fn generatable(m: CheckUtxoView) -> bool {
    count(m) is Some && (count(m) != Some(0nat) ==> {
        &&& count(m) == Some(1nat)
        &&& data_complete(attributes(m))
    })
}

/// The check after its code is generated: unchanged when it is for no utxo,
/// and `None` when the rendering fails.
pub open spec fn code_generated(m: CheckUtxoView) -> Option<CheckUtxoView> {
    if count(m) == Some(0nat) {
        Some(m)
    } else {
        match handlebars_render(CHECK_UTXO_TEMPLATE@, template_json(m, attributes(m))) {
            Some(t) => Some(rendered(m, t)),
            None => None,
        }
    }
}

/// Generates the code of each check in order; stops at the first rendering
/// that fails, with the checks from that one on left as they were.
pub fn generate_check_utxo_code(checked_utxo: &mut Vec<CheckUtxo>) -> (r: Result<(), MacroCircomError>)
    requires
        forall|i: int| 0 <= i < old(checked_utxo)@.len() ==> generatable(#[trigger] old(checked_utxo)@[i]@),
    ensures
        final(checked_utxo)@.len() == old(checked_utxo)@.len(),
        r is Ok ==> forall|i: int|
            0 <= i < old(checked_utxo)@.len() ==> code_generated(#[trigger] old(checked_utxo)@[i]@)
                == Some(final(checked_utxo)@[i]@),
        r is Err ==> result_view(r) == Err::<(), ErrorView>(ErrorView::TemplateRenderError) && exists|k: int|
            0 <= k < old(checked_utxo)@.len() && code_generated(#[trigger] old(checked_utxo)@[k]@) is None
                && (forall|i: int|
                0 <= i < k ==> code_generated(#[trigger] old(checked_utxo)@[i]@) == Some(
                    final(checked_utxo)@[i]@,
                )) && (forall|i: int|
                k <= i < old(checked_utxo)@.len() ==> (#[trigger] final(checked_utxo)@[i])@
                    == old(checked_utxo)@[i]@),
{
    let ghost orig = checked_utxo@;
    let mut pending: Vec<CheckUtxo> = Vec::new();
    std::mem::swap(&mut pending, checked_utxo);
    let mut done: Vec<CheckUtxo> = Vec::new();
    while pending.len() > 0
        invariant
            done@.len() + pending@.len() == orig.len(),
            orig == old(checked_utxo)@,
            forall|i: int| 0 <= i < pending@.len() ==> pending@[i] == orig[done@.len() + i],
            forall|i: int| 0 <= i < orig.len() ==> generatable(#[trigger] orig[i]@),
            forall|i: int|
                0 <= i < done@.len() ==> code_generated(#[trigger] orig[i]@) == Some(done@[i]@),
        decreases pending@.len(),
    {
        let ghost k = done@.len() as int;
        let mut u = pending.remove(0);
        assert(u == orig[k]);
        let n = match parse_u64(&chars_of(u.no_utxos.as_str())) {
            Some(n) => n,
            None => 0,
        };
        if n != 0 {
            match u.generate_code() {
                Ok(_) => {},
                Err(e) => {
                    let ghost before = done@;
                    done.push(u);
                    done.append(&mut pending);
                    assert forall|i: int| k <= i < orig.len() implies (#[trigger] done@[i])@ == orig[i]@ by {
                        if i > k {
                            assert(done@[i] == orig[i]);
                        }
                    }
                    assert(code_generated(orig[k]@) is None);
                    *checked_utxo = done;
                    return Err(e);
                },
            }
        }
        done.push(u);
    }
    *checked_utxo = done;
    Ok(())
}


// ------------------------------------------------------------------
// Comparing generated code up to layout
// ------------------------------------------------------------------
/// What `char::is_alphanumeric` says of a character: whether it is
/// Alphabetic or Numeric in Unicode.
pub uninterp spec fn unicode_alphanumeric(c: char) -> bool;

/// The characters that `char::is_alphanumeric` accepts. No White_Space
/// character is Alphabetic or Numeric, so none of them is among these.
pub open spec fn alphanumeric(c: char) -> bool {
    unicode_alphanumeric(c) && !is_white_space(c)
}

/// Calls `char::is_alphanumeric`. Trusted: the result is
/// `unicode_alphanumeric` of the character, a function of it alone, and is
/// false on every White_Space character, none of which Unicode makes
/// Alphabetic or Numeric.
#[verifier::external_body]
fn is_alphanumeric(c: char) -> (r: bool)
    ensures
        r == unicode_alphanumeric(c),
        is_white_space(c) ==> !r,
{
    c.is_alphanumeric()
}

/// The alphanumeric characters of a text, in order.
pub open spec fn alphanumeric_chars(s: Seq<char>) -> Seq<char>
    decreases s.len(),
{
    if s.len() == 0 {
        seq![]
    } else {
        alphanumeric_chars(s.drop_last()) + if alphanumeric(s.last()) {
            seq![s.last()]
        } else {
            seq![]
        }
    }
}

/// Keeping the alphanumeric characters of two texts put together keeps those
/// of the first, then those of the second.
pub proof fn lemma_alphanumeric_chars_concat(a: Seq<char>, b: Seq<char>)
    ensures
        alphanumeric_chars(a + b) == alphanumeric_chars(a) + alphanumeric_chars(b),
    decreases b.len(),
{
    if b.len() == 0 {
        assert(a + b =~= a);
        assert(alphanumeric_chars(a) + alphanumeric_chars(b) =~= alphanumeric_chars(a));
    } else {
        lemma_alphanumeric_chars_concat(a, b.drop_last());
        assert((a + b).drop_last() =~= a + b.drop_last());
        assert((a + b).last() == b.last());
    }
}

/// Removing the formatting of a text whose formatting was already removed
/// changes nothing.
pub proof fn lemma_remove_formatting_idempotent(s: Seq<char>)
    ensures
        alphanumeric_chars(alphanumeric_chars(s)) == alphanumeric_chars(s),
    decreases s.len(),
{
    if s.len() > 0 {
        lemma_remove_formatting_idempotent(s.drop_last());
        let tail: Seq<char> = if alphanumeric(s.last()) { seq![s.last()] } else { seq![] };
        lemma_alphanumeric_chars_concat(alphanumeric_chars(s.drop_last()), tail);
        if alphanumeric(s.last()) {
            assert(tail.drop_last() =~= Seq::<char>::empty());
            assert(alphanumeric_chars(Seq::<char>::empty()) =~= Seq::<char>::empty());
            assert(alphanumeric_chars(tail) =~= tail);
        } else {
            assert(alphanumeric_chars(tail) =~= tail);
        }
    }
}

/// A text of characters that are neither letters nor digits loses all of
/// them when its formatting is removed.
pub proof fn lemma_alphanumeric_chars_none(w: Seq<char>)
    requires
        forall|i: int| 0 <= i < w.len() ==> !alphanumeric(#[trigger] w[i]),
    ensures
        alphanumeric_chars(w) == Seq::<char>::empty(),
    decreases w.len(),
{
    if w.len() > 0 {
        lemma_alphanumeric_chars_none(w.drop_last());
        assert(!alphanumeric(w[w.len() - 1]));
        assert(alphanumeric_chars(w) =~= Seq::<char>::empty());
    }
}

/// Two texts that differ by an inserted run of characters that are neither
/// letters nor digits (white space, line breaks, brackets, punctuation) are
/// the same once their formatting is removed.
pub proof fn lemma_remove_formatting_ignores(a: Seq<char>, w: Seq<char>, b: Seq<char>)
    requires
        forall|i: int| 0 <= i < w.len() ==> !alphanumeric(#[trigger] w[i]),
    ensures
        alphanumeric_chars(a + w + b) == alphanumeric_chars(a + b),
{
    lemma_alphanumeric_chars_concat(a + w, b);
    lemma_alphanumeric_chars_concat(a, w);
    lemma_alphanumeric_chars_concat(a, b);
    lemma_alphanumeric_chars_none(w);
    assert(alphanumeric_chars(a) + alphanumeric_chars(w) =~= alphanumeric_chars(a));
}

/// Two texts that differ by inserted white space are the same once their
/// formatting is removed.
pub proof fn lemma_remove_formatting_ignores_white_space(a: Seq<char>, w: Seq<char>, b: Seq<char>)
    requires
        forall|i: int| 0 <= i < w.len() ==> is_white_space(#[trigger] w[i]),
    ensures
        alphanumeric_chars(a + w + b) == alphanumeric_chars(a + b),
{
    assert forall|i: int| 0 <= i < w.len() implies !alphanumeric(#[trigger] w[i]) by {
        assert(is_white_space(w[i]));
    }
    lemma_remove_formatting_ignores(a, w, b);
}

/// A text with everything but its letters and digits removed, so that two
/// pieces of code can be compared regardless of layout and punctuation.
pub fn remove_formatting(input: &str) -> (r: String)
    ensures
        r@ == alphanumeric_chars(input@),
{
    let v = chars_of(input);
    let mut r = String::new();
    let mut i: usize = 0;
    while i < v.len()
        invariant
            i <= v@.len(),
            v@ == input@,
            r@ == alphanumeric_chars(v@.take(i as int)),
        decreases v@.len() - i,
    {
        assert(v@.take(i + 1).drop_last() =~= v@.take(i as int));
        let ghost before = r@;
        if is_alphanumeric(v[i]) {
            r.push(v[i]);
        }
        i += 1;
        assert(r@ =~= alphanumeric_chars(v@.take(i as int)));
    }
    assert(v@.take(i as int) =~= v@);
    r
}

} // verus!
