//! The main circom file, which instantiates the light transaction template.
use crate::casing::{to_upper_camel_case, upper_camel_case};
use crate::text::{
    copy_str, ends_with, join, join_strings, lemma_join_len, lemma_occurs_in_middle, occurs_in, push_str,
    starts_with, strs_of,
};
use vstd::prelude::*;

verus! {

pub const DISCLAIMER_STRING: &'static str = "/**
* This file is auto-generated by the Light cli.
* DO NOT EDIT MANUALLY.
* THE FILE WILL BE OVERWRITTEN EVERY TIME THE LIGHT CLI BUILD IS RUN.
*/";

#[derive(Debug, PartialEq, Clone)]
pub struct Instance {
    pub file_name: String,
    pub template_name: Option<String>,
    pub config: Option<Vec<String>>,
    pub public_inputs: Vec<String>,
}

/// An instance with its texts taken by value.
pub struct InstanceView {
    pub file_name: Seq<char>,
    pub template_name: Option<Seq<char>>,
    pub config: Option<Seq<Seq<char>>>,
    pub public_inputs: Seq<Seq<char>>,
}

impl View for Instance {
    type V = InstanceView;

    open spec fn view(&self) -> InstanceView {
        InstanceView {
            file_name: self.file_name@,
            template_name: match self.template_name {
                Some(t) => Some(t@),
                None => None,
            },
            config: match self.config {
                Some(c) => Some(strs_of(c@)),
                None => None,
            },
            public_inputs: strs_of(self.public_inputs@),
        }
    }
}

/// The configuration arguments, separated by commas.
pub open spec fn config_text(i: InstanceView) -> Seq<char> {
    match i.config {
        Some(c) => join(c, ", "@),
        None => seq![],
    }
}

/// The text of the main file: the disclaimer, the pragma, the include of the
/// circuit, and the main component with the public inputs, built from the
/// template named after the file with the configuration arguments first.
pub open spec fn main_code_text(i: InstanceView, circuit_name: Seq<char>) -> Seq<char> {
    DISCLAIMER_STRING@ + "\npragma circom 2.1.4;\ninclude \"./"@ + circuit_name
        + ".circom\";\ncomponent main {public ["@ + join(i.public_inputs, ", "@) + "]} =  "@
        + upper_camel_case(i.file_name) + "("@ + config_text(i) + (if config_text(i).len() == 0 {
        ""@
    } else {
        ","@
    })
        + " 18, 4, 4, 184598798020101492503359154328231866914977581098629757339001774613643340069, 0, 1, 3, 2, 2);"@
}

/// The main component's arguments: the configuration arguments first, then
/// a comma and the protocol's parameters; with no configuration, the
/// protocol's parameters come right after the opening parenthesis.
pub proof fn lemma_main_component_arguments(i: InstanceView, circuit_name: Seq<char>)
    ensures
        i.config is None ==> ends_with(
            main_code_text(i, circuit_name),
            "("@
                + " 18, 4, 4, 184598798020101492503359154328231866914977581098629757339001774613643340069, 0, 1, 3, 2, 2);"@,
        ),
        forall|j: int|
            #![trigger i.config.unwrap()[j]]
            i.config is Some && 0 <= j < i.config.unwrap().len() && i.config.unwrap()[j].len() > 0
                ==> ends_with(
                main_code_text(i, circuit_name),
                "("@ + join(i.config.unwrap(), ", "@) + ","@
                    + " 18, 4, 4, 184598798020101492503359154328231866914977581098629757339001774613643340069, 0, 1, 3, 2, 2);"@,
            ),
{
    let head = DISCLAIMER_STRING@ + "\npragma circom 2.1.4;\ninclude \"./"@ + circuit_name
        + ".circom\";\ncomponent main {public ["@ + join(i.public_inputs, ", "@) + "]} =  "@
        + upper_camel_case(i.file_name);
    let sep = if config_text(i).len() == 0 {
        ""@
    } else {
        ","@
    };
    let tail = "("@ + config_text(i) + sep
        + " 18, 4, 4, 184598798020101492503359154328231866914977581098629757339001774613643340069, 0, 1, 3, 2, 2);"@;
    assert(main_code_text(i, circuit_name) =~= head + tail);
    assert((head + tail).subrange(head.len() as int, (head + tail).len() as int) =~= tail);
    if i.config is None {
        reveal_strlit("");
        assert(tail =~= "("@
            + " 18, 4, 4, 184598798020101492503359154328231866914977581098629757339001774613643340069, 0, 1, 3, 2, 2);"@);
    }
    assert forall|j: int|
        #![trigger i.config.unwrap()[j]]
        i.config is Some && 0 <= j < i.config.unwrap().len() && i.config.unwrap()[j].len() > 0
            implies ends_with(
            main_code_text(i, circuit_name),
            "("@ + join(i.config.unwrap(), ", "@) + ","@
                + " 18, 4, 4, 184598798020101492503359154328231866914977581098629757339001774613643340069, 0, 1, 3, 2, 2);"@,
        ) by {
        lemma_join_len(i.config.unwrap(), ", "@, j);
        assert(config_text(i).len() > 0);
    }
}

/// The main file starts with the disclaimer, includes the circuit file, and
/// declares the main component with the instance's public inputs, separated
/// by commas, as an instance of the template named after the file.
pub proof fn lemma_main_component_declared(i: InstanceView, circuit_name: Seq<char>)
    ensures
        starts_with(main_code_text(i, circuit_name), DISCLAIMER_STRING@),
        occurs_in(main_code_text(i, circuit_name), "include \"./"@ + circuit_name + ".circom\";"@),
        occurs_in(
            main_code_text(i, circuit_name),
            "component main {public ["@ + join(i.public_inputs, ", "@) + "]} =  "@ + upper_camel_case(
                i.file_name,
            ) + "("@,
        ),
{
    let m = main_code_text(i, circuit_name);
    let sep = if config_text(i).len() == 0 {
        ""@
    } else {
        ","@
    };
    let tail = config_text(i) + sep
        + " 18, 4, 4, 184598798020101492503359154328231866914977581098629757339001774613643340069, 0, 1, 3, 2, 2);"@;
    let pragma = "\npragma circom 2.1.4;\n"@;
    let inc = "include \"./"@ + circuit_name + ".circom\";"@;
    let comp = "component main {public ["@ + join(i.public_inputs, ", "@) + "]} =  "@ + upper_camel_case(
        i.file_name,
    ) + "("@;
    reveal_strlit("\npragma circom 2.1.4;\ninclude \"./");
    reveal_strlit("\npragma circom 2.1.4;\n");
    reveal_strlit("include \"./");
    reveal_strlit(".circom\";\ncomponent main {public [");
    reveal_strlit(".circom\";");
    reveal_strlit("\ncomponent main {public [");
    reveal_strlit("component main {public [");
    reveal_strlit("\n");
    assert(m =~= DISCLAIMER_STRING@ + (pragma + inc + "\n"@ + comp + tail));
    assert(m.subrange(0, DISCLAIMER_STRING@.len() as int) =~= DISCLAIMER_STRING@);
    assert(m =~= (DISCLAIMER_STRING@ + pragma) + inc + ("\n"@ + comp + tail));
    lemma_occurs_in_middle(DISCLAIMER_STRING@ + pragma, inc, "\n"@ + comp + tail);
    assert(m =~= (DISCLAIMER_STRING@ + pragma + inc + "\n"@) + comp + tail);
    lemma_occurs_in_middle(DISCLAIMER_STRING@ + pragma + inc + "\n"@, comp, tail);
}

pub fn generate_circom_main_code(instance: &Instance, circuit_name: &str) -> (r: String)
    ensures
        r@ == main_code_text(instance@, circuit_name@),
{
    let inputs_str = join_strings(&instance.public_inputs, ", ");
    let config_str = match &instance.config {
        Some(config) => join_strings(config, ", "),
        None => String::new(),
    };
    let name = to_upper_camel_case(instance.file_name.as_str());
    let mut r = copy_str(DISCLAIMER_STRING);
    push_str(&mut r, "\npragma circom 2.1.4;\ninclude \"./");
    push_str(&mut r, circuit_name);
    push_str(&mut r, ".circom\";\ncomponent main {public [");
    push_str(&mut r, inputs_str.as_str());
    push_str(&mut r, "]} =  ");
    push_str(&mut r, name.as_str());
    push_str(&mut r, "(");
    push_str(&mut r, config_str.as_str());
    push_str(
        &mut r,
        if config_str.as_str().is_empty() {
            ""
        } else {
            ","
        },
    );
    push_str(
        &mut r,
        " 18, 4, 4, 184598798020101492503359154328231866914977581098629757339001774613643340069, 0, 1, 3, 2, 2);",
    );
    r
}

/// The main file of an instance: where it goes (`<dir>/<file name>.circom`)
/// and what it holds.
pub fn generate_circom_main_file(instance: Instance, file_name: &str, path_to_parent_dir: &str) -> (r: (String, String))
    ensures
        r.0@ == path_to_parent_dir@ + "/"@ + instance.file_name@ + ".circom"@,
        r.1@ == main_code_text(instance@, file_name@),
{
    let mut path = copy_str(path_to_parent_dir);
    push_str(&mut path, "/");
    push_str(&mut path, instance.file_name.as_str());
    push_str(&mut path, ".circom");
    let code = generate_circom_main_code(&instance, file_name);
    (path, code)
}

} // verus!
