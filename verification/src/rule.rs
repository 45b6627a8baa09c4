//! Decision specifications: the compiler's input.
//!
//! A [`DecisionRef`] is the raw record a rules source hands over: a
//! decision id, a kind, a handle naming where its rule rows live, and the
//! declared field and adjacency lists. A [`Decision`] is the resolved
//! form the compiler consumes, with the rule rows and any function source
//! already loaded. Reading files is the rules source's business, outside
//! this crate: [`Decision::assemble`] only combines what was read.

use vstd::prelude::*;

use crate::context::str_eq;

verus! {

/// One rule row: ordered key-value cells.
pub type Rule = Vec<(String, String)>;

/// A raw decision record, as a rules source lists it.
#[derive(Debug, Clone)]
pub struct DecisionRef {
    /// Unique decision id.
    pub id: String,
    /// The builder-selecting kind.
    pub kind: String,
    /// The handle naming the decision's rule rows (a path or an inline
    /// expression source).
    pub rules: String,
    /// Declared input field names, if any.
    pub inputs: Option<Vec<String>>,
    /// Declared output field names, if any.
    pub outputs: Option<Vec<String>>,
    /// Ids of predecessor decisions.
    pub sources: Vec<String>,
    /// Ids of successor decisions.
    pub targets: Vec<String>,
}

/// A resolved decision specification.
#[derive(Debug, Clone)]
pub struct Decision {
    /// Unique decision id.
    pub id: String,
    /// The builder-selecting kind.
    pub kind: String,
    /// The decision's rule rows, in order.
    pub rules: Vec<Rule>,
    /// Raw expression source, used when the kind is `expression`.
    pub expression: String,
    /// Raw function source, used when the kind is `function`.
    pub function: String,
    /// Ordered input field names.
    pub inputs: Vec<String>,
    /// Ordered output field names.
    pub outputs: Vec<String>,
    /// Ids of predecessor decisions.
    pub sources: Vec<String>,
    /// Ids of successor decisions.
    pub targets: Vec<String>,
}

impl Decision {
    /// Combines a raw record with its loaded rule rows and, for a
    /// function-kind decision, its loaded source text. The raw `rules`
    /// handle doubles as the expression source; the function source is
    /// kept only for a function-kind decision and defaults to empty when
    /// none was loaded.
    pub fn assemble(
        dec_ref: DecisionRef,
        rules_table: Vec<Rule>,
        function_source: Option<String>,
    ) -> (d: Decision)
        ensures
            d.id == dec_ref.id,
            d.kind == dec_ref.kind,
            d.rules == rules_table,
            d.expression == dec_ref.rules,
            d.function@ == if dec_ref.kind@ == "function"@ {
                match function_source {
                    Some(src) => src@,
                    None => Seq::<char>::empty(),
                }
            } else {
                Seq::<char>::empty()
            },
            d.inputs.deep_view() == match dec_ref.inputs {
                Some(names) => names.deep_view(),
                None => Seq::<Seq<char>>::empty(),
            },
            d.outputs.deep_view() == match dec_ref.outputs {
                Some(names) => names.deep_view(),
                None => Seq::<Seq<char>>::empty(),
            },
            d.sources == dec_ref.sources,
            d.targets == dec_ref.targets,
    {
        let DecisionRef { id, kind, rules, inputs, outputs, sources, targets } = dec_ref;
        let is_function = str_eq(kind.as_str(), "function");
        let function: String = if is_function {
            match function_source {
                Some(src) => src,
                None => String::new(),
            }
        } else {
            String::new()
        };
        let inputs: Vec<String> = match inputs {
            Some(names) => names,
            None => {
                let empty_names: Vec<String> = Vec::new();
                proof {
                    assert(empty_names.deep_view() =~= Seq::<Seq<char>>::empty());
                }
                empty_names
            },
        };
        let outputs: Vec<String> = match outputs {
            Some(names) => names,
            None => {
                let empty_names: Vec<String> = Vec::new();
                proof {
                    assert(empty_names.deep_view() =~= Seq::<Seq<char>>::empty());
                }
                empty_names
            },
        };
        Decision {
            id,
            kind,
            rules: rules_table,
            expression: rules,
            function,
            inputs,
            outputs,
            sources,
            targets,
        }
    }
}

} // verus!
