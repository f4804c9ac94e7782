//! ACPI Machine Language: parsing, structuring and evaluating.

pub mod execution;
pub mod parser;
pub mod structured;

use vstd::prelude::*;
use execution::{execute_outcome, AmlExecutionError, DataObject, ExecutionContext};
use parser::{AmlCode, AmlParseError, UnresolvedDataObject};
use parser::copy::same_terms_from;
use structured::{scope_model, scope_wf, structure_model, StructuredAml};

verus! {

/// Parsed AML code together with its tree of named objects.
#[derive(Debug)]
pub struct Aml {
    code: AmlCode,
    structured: StructuredAml,
}

/// What parsing the code `body` gives: a well-formed tree of terms laid out
/// over the whole code; success with exactly the terms when the code is
/// made of simple terms (`parser::simple_terms`) or of Noop and Break
/// opcodes; and `UnknownOpcode` when its first byte starts no term.
pub open spec fn parse_outcome(body: Seq<u8>, r: Result<Aml, AmlParseError>) -> bool {
    &&& r matches Ok(aml) ==> aml.wf() && exists|starts: Seq<int>|
        #[trigger] parser::terms_laid_out(body, aml.code_view().term_list@, starts, 0, body.len() as int)
    &&& parser::control_bytes(body, 0, body.len() as int) ==> r is Ok
    &&& parser::simple_terms(body, 0, body.len() as int) matches Some(ts) ==> (r matches Ok(aml)
        && aml.code_view().term_list@ == ts)
    &&& parser::unknown_opcode_at(body, 0, body.len() as int) ==> (r matches Err(AmlParseError::UnknownOpcode(b))
        && b == body[0])
}

impl Aml {
    /// The tree is well formed.
    pub closed spec fn wf(&self) -> bool {
        scope_wf(scope_model(self.structured.root))
    }

    /// The code that was parsed.
    pub closed spec fn code_view(&self) -> AmlCode {
        self.code
    }

    /// The root scope of the tree.
    pub closed spec fn root_view(&self) -> structured::Scope {
        self.structured.root
    }

    /// Parses the code, then builds its tree. A tree that cannot be built
    /// is reported as `MalformedScope`.
    pub fn parse(body: &[u8]) -> (r: Result<Self, AmlParseError>)
        ensures
            parse_outcome(body@, r),
            r matches Ok(aml) ==> aml.wf() && exists|c: Seq<parser::AmlTerm>|
                #[trigger] same_terms_from(c, aml.code_view().term_list@, 0) && structure_model(c)
                    == Some(scope_model(aml.root_view())),
            r matches Ok(aml) ==> exists|starts: Seq<int>|
                #[trigger] parser::terms_laid_out(body@, aml.code_view().term_list@, starts, 0, body@.len() as int),
            parser::control_bytes(body@, 0, body@.len() as int) ==> r is Ok,
            parser::simple_terms(body@, 0, body@.len() as int) matches Some(ts) ==> (r matches Ok(aml)
                && aml.code_view().term_list@ == ts),
            parser::unknown_opcode_at(body@, 0, body@.len() as int) ==> (r matches Err(AmlParseError::UnknownOpcode(b))
                && b == body@[0]),
    {
        let code = parser::parse_aml(body)?;
        let ghost codes = code.term_list@;
        let sr = StructuredAml::parse(&code);
        proof {
            if parser::control_bytes(body@, 0, body@.len() as int) {
                let c = choose|c: Seq<parser::AmlTerm>|
                    #[trigger] same_terms_from(c, codes, 0) && match sr {
                        Ok(s) => structure_model(c) == Some(scope_model(s.root)) && scope_wf(scope_model(s.root)),
                        Err(_) => structure_model(c) is None,
                    };
                assert forall|i: int| 0 <= i < codes.len() implies structured::declares_nothing(#[trigger] codes[i]) by {
                    assert(parser::control_term(body@[0 + i], codes[i]));
                    assert(structured::declares_nothing(codes[i]));
                }
                parser::copy::lemma_same_control_terms(c, codes, 0);
                structured::lemma_control_terms_structure(c);
            }
            if parser::simple_terms(body@, 0, body@.len() as int) is Some {
                let c = choose|c: Seq<parser::AmlTerm>|
                    #[trigger] same_terms_from(c, codes, 0) && match sr {
                        Ok(s) => structure_model(c) == Some(scope_model(s.root)) && scope_wf(scope_model(s.root)),
                        Err(_) => structure_model(c) is None,
                    };
                parser::lemma_simple_terms_declare_nothing(body@, 0, body@.len() as int);
                parser::copy::lemma_same_control_terms(c, codes, 0);
                structured::lemma_control_terms_structure(c);
            }
        }
        match sr {
            Ok(structured) => {
                let aml = Aml { code, structured };
                proof {
                    let c = choose|c: Seq<parser::AmlTerm>|
                        #[trigger] same_terms_from(c, code.term_list@, 0) && structure_model(c)
                            == Some(scope_model(structured.root)) && scope_wf(scope_model(structured.root));
                    assert(same_terms_from(c, aml.code_view().term_list@, 0));
                    let st = choose|st: Seq<int>|
                        #[trigger] parser::terms_laid_out(body@, code.term_list@, st, 0, body@.len() as int);
                    assert(parser::terms_laid_out(body@, aml.code_view().term_list@, st, 0, body@.len() as int));
                }
                Ok(aml)
            },
            Err(_) => Err(AmlParseError::MalformedScope),
        }
    }

    pub fn code(&self) -> (r: &AmlCode)
        ensures
            *r == self.code_view(),
    {
        &self.code
    }

    pub fn structured(&self) -> (r: &StructuredAml)
        ensures
            r.root == self.root_view(),
    {
        &self.structured
    }

    /// Evaluates the object at the absolute path `label`, as
    /// `ExecutionContext::execute` does on the tree.
    pub fn execute(
        &self,
        ctx: &mut ExecutionContext,
        label: &str,
        args: &[UnresolvedDataObject],
    ) -> (r: Result<DataObject, AmlExecutionError>)
        requires
            self.wf(),
        ensures
            execute_outcome(scope_model(self.root_view()), label@, r),
    {
        ctx.execute(&self.structured, label, args)
    }
}

} // verus!
