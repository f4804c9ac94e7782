//! Evaluating named objects of the AML tree.
//!
//! Only data objects are evaluated: integers, strings, EISA ids and packages
//! of them. Method bodies and expressions are not run.

use vstd::prelude::*;
use crate::text::{copy_string, string_from};
use super::parser::{IntegerData, PackageElement, TermArg, UnresolvedDataObject};
use super::structured::{
    element_model, find_model, scope_model, scope_wf, ElementModel, ElementType, FindError, ScopeModel,
    StructuredAml, StructuredAmlError,
};

verus! {

/// A package after evaluation.
#[derive(Debug)]
pub struct Package {
    pub size: IntegerData,
    pub elements: Vec<PackageElement<DataObject>>,
}

impl Package {
    /// The declared number of elements.
    pub fn size(&self) -> (r: usize)
        ensures
            r == super::parser::integer_value(self.size) as usize,
    {
        self.size.as_u64() as usize
    }

    /// The element at `index`, if there is one.
    pub fn get(&self, index: usize) -> (r: Option<&PackageElement<DataObject>>)
        ensures
            index < self.elements@.len() ==> r == Some(&self.elements@[index as int]),
            index >= self.elements@.len() ==> r is None,
    {
        if index < self.elements.len() {
            Some(&self.elements[index])
        } else {
            None
        }
    }

    /// All elements, in order.
    pub fn iter(&self) -> (r: &[PackageElement<DataObject>])
        ensures
            r@ == self.elements@,
    {
        self.elements.as_slice()
    }
}

/// A data object after evaluation: it holds no expressions.
#[derive(Debug)]
pub enum DataObject {
    Integer(IntegerData),
    Buffer(IntegerData, Vec<u8>),
    Package(Package),
    String(String),
    EisaId(String),
}

impl DataObject {
    pub fn as_integer(&self) -> (r: Option<&IntegerData>)
        ensures
            r == match self {
                DataObject::Integer(d) => Some(d),
                _ => None::<&IntegerData>,
            },
    {
        match self {
            DataObject::Integer(data) => Some(data),
            _ => None,
        }
    }

    pub fn as_package(&self) -> (r: Option<&Package>)
        ensures
            r == match self {
                DataObject::Package(p) => Some(p),
                _ => None::<&Package>,
            },
    {
        match self {
            DataObject::Package(package) => Some(package),
            _ => None,
        }
    }
}

#[derive(Debug)]
pub enum AmlExecutionError {
    LableNotFound(String),
    StructuredAmlError(StructuredAmlError),
    ElementNotExecutable(String),
    UnexpectedTermResultType(TermArg, String),
    /// The object needs a method body or an expression to be run, which
    /// this evaluator does not do. Holds the label being evaluated.
    Unsupported(String),
}

impl From<StructuredAmlError> for AmlExecutionError {
    fn from(err: StructuredAmlError) -> (r: Self) {
        AmlExecutionError::StructuredAmlError(err)
    }
}

impl vstd::std_specs::convert::FromSpecImpl<StructuredAmlError> for AmlExecutionError {
    open spec fn obeys_from_spec() -> bool {
        true
    }

    open spec fn from_spec(err: StructuredAmlError) -> Self {
        AmlExecutionError::StructuredAmlError(err)
    }
}

/// Whether a data object can be evaluated: it holds no buffer and no
/// package of computed size, at any depth.
pub open spec fn evaluable(u: UnresolvedDataObject) -> bool
    decreases u, 0int,
{
    match u {
        UnresolvedDataObject::Buffer(_) => false,
        UnresolvedDataObject::VarPackage(_, _) => false,
        UnresolvedDataObject::Package(_, els) => elements_evaluable(els@, 0),
        _ => true,
    }
}

pub open spec fn element_evaluable(e: PackageElement<UnresolvedDataObject>) -> bool
    decreases e, 0int,
{
    match e {
        PackageElement::DataObject(u) => evaluable(u),
        PackageElement::Name(_) => true,
    }
}

pub open spec fn elements_evaluable(a: Seq<PackageElement<UnresolvedDataObject>>, k: int) -> bool
    decreases a, a.len() - k,
{
    if k < 0 || k >= a.len() {
        true
    } else {
        element_evaluable(a[k]) && elements_evaluable(a, k + 1)
    }
}

/// `d` is what the data object `u` evaluates to: the same integers and
/// strings, and packages of the same size and elements.
pub open spec fn evaluates_to(u: UnresolvedDataObject, d: DataObject) -> bool
    decreases u, 0int,
{
    match (u, d) {
        (UnresolvedDataObject::Integer(i), DataObject::Integer(j)) => i == j,
        (UnresolvedDataObject::String(s), DataObject::String(t)) => s@ == t@,
        (UnresolvedDataObject::EisaId(s), DataObject::EisaId(t)) => s@ == t@,
        (UnresolvedDataObject::Package(size, els), DataObject::Package(p)) => p.size
            == IntegerData::ByteConst(size) && elements_evaluate_to(els@, p.elements@, 0),
        _ => false,
    }
}

pub open spec fn element_evaluates_to(e: PackageElement<UnresolvedDataObject>, f: PackageElement<DataObject>) -> bool
    decreases e, 0int,
{
    match (e, f) {
        (PackageElement::DataObject(u), PackageElement::DataObject(d)) => evaluates_to(u, d),
        (PackageElement::Name(n), PackageElement::Name(m)) => n@ == m@,
        _ => false,
    }
}

pub open spec fn elements_evaluate_to(
    a: Seq<PackageElement<UnresolvedDataObject>>,
    b: Seq<PackageElement<DataObject>>,
    k: int,
) -> bool
    decreases a, a.len() - k,
{
    if k < 0 || k >= a.len() {
        a.len() == b.len()
    } else {
        element_evaluates_to(a[k], b[k]) && elements_evaluate_to(a, b, k + 1)
    }
}

proof fn lemma_elements_evaluate_to(
    a: Seq<PackageElement<UnresolvedDataObject>>,
    b: Seq<PackageElement<DataObject>>,
    k: int,
)
    requires
        a.len() == b.len(),
        0 <= k <= a.len(),
        forall|j: int| k <= j < a.len() ==> #[trigger] element_evaluates_to(a[j], b[j]),
    ensures
        elements_evaluate_to(a, b, k),
    decreases a.len() - k,
{
    if k < a.len() {
        lemma_elements_evaluate_to(a, b, k + 1);
        assert(element_evaluates_to(a[k], b[k]));
    }
    reveal_with_fuel(elements_evaluate_to, 1);
}

/// Where two element lists correspond, they have the same length and
/// correspond element by element.
pub proof fn lemma_elements_evaluate_to_each(
    a: Seq<PackageElement<UnresolvedDataObject>>,
    b: Seq<PackageElement<DataObject>>,
    k: int,
)
    requires
        0 <= k,
        elements_evaluate_to(a, b, k),
    ensures
        a.len() == b.len(),
        forall|j: int| k <= j < a.len() ==> #[trigger] element_evaluates_to(a[j], b[j]),
    decreases a.len() - k,
{
    reveal_with_fuel(elements_evaluate_to, 1);
    if k < a.len() {
        lemma_elements_evaluate_to_each(a, b, k + 1);
    }
}

proof fn lemma_elements_evaluable(a: Seq<PackageElement<UnresolvedDataObject>>, k: int)
    requires
        0 <= k <= a.len(),
    ensures
        elements_evaluable(a, k) <==> forall|j: int| k <= j < a.len() ==> #[trigger] element_evaluable(a[j]),
    decreases a.len() - k,
{
    reveal_with_fuel(elements_evaluable, 1);
    if k < a.len() {
        lemma_elements_evaluable(a, k + 1);
        if forall|j: int| k <= j < a.len() ==> #[trigger] element_evaluable(a[j]) {
            assert(element_evaluable(a[k]));
        }
        if elements_evaluable(a, k) {
            assert forall|j: int| k <= j < a.len() implies #[trigger] element_evaluable(a[j]) by {
                if j > k {
                    assert(k + 1 <= j < a.len());
                }
            }
        }
    }
}

/// What evaluating the absolute path `label` in the tree `root` gives:
/// the errors of the lookup, and for a named data object the object as
/// `evaluates_to` says, where it is `evaluable`.
pub open spec fn execute_outcome(
    root: ScopeModel,
    label: Seq<char>,
    r: Result<DataObject, AmlExecutionError>,
) -> bool {
    if !(label.len() > 0 && label[0] == '\\') {
        r matches Err(AmlExecutionError::StructuredAmlError(StructuredAmlError::QueryPathMustBeAbsolute))
    } else if label.len() == 1 {
        r matches Err(AmlExecutionError::StructuredAmlError(StructuredAmlError::CannotQueryRoot))
    } else {
        match find_model(root, label.drop_first()) {
            Err(FindError::InvalidName(y)) => r matches Err(
                AmlExecutionError::StructuredAmlError(StructuredAmlError::InvalidName(x)),
            ) && x@ == y,
            Err(FindError::PartOfPathNotScope(y)) => r matches Err(
                AmlExecutionError::StructuredAmlError(StructuredAmlError::PartOfPathNotScope(x)),
            ) && x@ == y,
            Ok(None) => r matches Err(AmlExecutionError::LableNotFound(x)) && x@ == label,
            Ok(Some(ElementModel::Name(u))) => (r is Ok <==> evaluable(u)) && (r matches Ok(d)
                ==> evaluates_to(u, d)) && (r matches Err(e) ==> e matches AmlExecutionError::Unsupported(x)
                && x@ == label),
            Ok(Some(ElementModel::Method(_, _, _))) => r matches Err(AmlExecutionError::Unsupported(x))
                && x@ == label,
            Ok(Some(ElementModel::UnknownElements(_))) => r matches Err(
                AmlExecutionError::LableNotFound(x),
            ) && x@ == label,
            Ok(Some(_)) => r matches Err(AmlExecutionError::ElementNotExecutable(x)) && x@ == label,
        }
    }
}

/// The evaluator. It holds no state.
#[derive(Debug, Default)]
pub struct ExecutionContext {}

impl ExecutionContext {
    /// Evaluates the object at the absolute path `label`. Only named data
    /// objects are evaluated; the arguments are not used.
    pub fn execute(
        &self,
        structured: &StructuredAml,
        label: &str,
        args: &[UnresolvedDataObject],
    ) -> (r: Result<DataObject, AmlExecutionError>)
        requires
            scope_wf(scope_model(structured.root)),
        ensures
            execute_outcome(scope_model(structured.root), label@, r),
    {
        proof {
            if label@.len() == 1 && label@[0] == '\\' {
                assert(label@ =~= seq!['\\']);
            }
        }
        let found = structured.find_object(label);
        let element = match found {
            Ok(Some(e)) => e,
            Ok(None) => {
                return Err(AmlExecutionError::LableNotFound(string_from(label)));
            },
            Err(e) => {
                return Err(AmlExecutionError::StructuredAmlError(e));
            },
        };
        match element {
            ElementType::Method(_) => Err(AmlExecutionError::Unsupported(string_from(label))),
            ElementType::Name(data) => self.evaluate_data_object(data, label),
            ElementType::UnknownElements(_) => {
                // Unknown elements are kept under an internal label that is never evaluated.
                Err(AmlExecutionError::LableNotFound(string_from(label)))
            },
            _ => Err(AmlExecutionError::ElementNotExecutable(string_from(label))),
        }
    }

    /// Running an expression, which this evaluator does not do.
    fn execute_term_arg(&self, term: &TermArg, reference_path: &str) -> (r: Result<DataObject, AmlExecutionError>)
        ensures
            r matches Err(AmlExecutionError::Unsupported(x)) && x@ == reference_path@,
    {
        Err(AmlExecutionError::Unsupported(string_from(reference_path)))
    }

    /// Evaluates the elements of a package, in order.
    fn convert_package_elements(
        &self,
        elements: &Vec<PackageElement<UnresolvedDataObject>>,
        reference_path: &str,
    ) -> (r: Result<Vec<PackageElement<DataObject>>, AmlExecutionError>)
        ensures
            r is Ok <==> elements_evaluable(elements@, 0),
            r matches Ok(v) ==> elements_evaluate_to(elements@, v@, 0),
            r matches Err(e) ==> e matches AmlExecutionError::Unsupported(x) && x@ == reference_path@,
        decreases elements, 1int,
    {
        let mut out: Vec<PackageElement<DataObject>> = Vec::new();
        let mut i: usize = 0;
        proof {
            lemma_elements_evaluable(elements@, 0);
        }
        while i < elements.len()
            invariant
                i <= elements@.len(),
                out@.len() == i,
                forall|j: int| 0 <= j < i ==> #[trigger] element_evaluates_to(elements@[j], out@[j]),
                forall|j: int| 0 <= j < i ==> #[trigger] element_evaluable(elements@[j]),
                elements_evaluable(elements@, 0) <==> forall|j: int|
                    0 <= j < elements@.len() ==> #[trigger] element_evaluable(elements@[j]),
            decreases elements@.len() - i,
        {
            let converted = match &elements[i] {
                PackageElement::DataObject(data) => {
                    proof {
                        assert(decreases_to!(elements => elements@));
                        assert(decreases_to!(elements@ => elements@[i as int]));
                    }
                    match self.evaluate_data_object(data, reference_path) {
                        Ok(d) => PackageElement::DataObject(d),
                        Err(e) => {
                            assert(!element_evaluable(elements@[i as int]));
                            return Err(e);
                        },
                    }
                },
                PackageElement::Name(name) => PackageElement::Name(copy_string(name)),
            };
            out.push(converted);
            i = i + 1;
        }
        proof {
            lemma_elements_evaluate_to(elements@, out@, 0);
        }
        Ok(out)
    }

    /// Evaluates a data object, as `evaluates_to` says.
    fn evaluate_data_object(&self, data: &UnresolvedDataObject, reference_path: &str) -> (r: Result<DataObject, AmlExecutionError>)
        ensures
            r is Ok <==> evaluable(*data),
            r matches Ok(d) ==> evaluates_to(*data, d),
            r matches Err(e) ==> e matches AmlExecutionError::Unsupported(x) && x@ == reference_path@,
        decreases data, 2int,
    {
        match data {
            UnresolvedDataObject::Buffer(buffer) => {
                // The size of a buffer is an expression.
                self.execute_term_arg(&buffer.size, reference_path)
            },
            UnresolvedDataObject::VarPackage(term, _) => {
                // The size of such a package is an expression.
                self.execute_term_arg(&**term, reference_path)
            },
            UnresolvedDataObject::Package(size, elements) => {
                let elements = self.convert_package_elements(elements, reference_path)?;
                Ok(DataObject::Package(Package { size: IntegerData::ByteConst(*size), elements }))
            },
            UnresolvedDataObject::Integer(i) => Ok(DataObject::Integer(*i)),
            UnresolvedDataObject::String(s) => Ok(DataObject::String(copy_string(s))),
            UnresolvedDataObject::EisaId(s) => Ok(DataObject::EisaId(copy_string(s))),
        }
    }
}

} // verus!
