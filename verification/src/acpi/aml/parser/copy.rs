//! Deep copies of parsed AML trees, and what it means for two trees to be
//! the same.

use vstd::prelude::*;
use super::{
    AmlTerm, Buffer, FieldConnection, FieldDef, FieldElement, IndexFieldDef, MethodObj,
    PackageElement, PowerResource, PredicateBlock, ProcessorDeprecated, RegionObj, ScopeObj,
    Target, TermArg, UnresolvedDataObject,
};
use crate::text::copy_string;

verus! {

/// `a` and `b` are the same tree, up to the identity of vectors.
pub open spec fn same_term(a: AmlTerm, b: AmlTerm) -> bool
    decreases a, 0int,
{
    match (a, b) {
        (AmlTerm::Scope(x0), AmlTerm::Scope(y0)) => same_scope_obj(x0, y0),
        (AmlTerm::Region(x0), AmlTerm::Region(y0)) => same_region_obj(x0, y0),
        (AmlTerm::Field(x0), AmlTerm::Field(y0)) => same_field_def(x0, y0),
        (AmlTerm::IndexField(x0), AmlTerm::IndexField(y0)) => same_index_field_def(x0, y0),
        (AmlTerm::Device(x0), AmlTerm::Device(y0)) => same_scope_obj(x0, y0),
        (AmlTerm::Processor(x0), AmlTerm::Processor(y0)) => same_processor(x0, y0),
        (AmlTerm::PowerResource(x0), AmlTerm::PowerResource(y0)) => same_power_resource(x0, y0),
        (AmlTerm::Method(x0), AmlTerm::Method(y0)) => same_method_obj(x0, y0),
        (AmlTerm::NameObj(x0, x1), AmlTerm::NameObj(y0, y1)) => x0 == y0 && same_data_object(x1, y1),
        (AmlTerm::Alias(x0, x1), AmlTerm::Alias(y0, y1)) => x0 == y0 && x1 == y1,
        (AmlTerm::ToHexString(x0, x1), AmlTerm::ToHexString(y0, y1)) => same_term_arg(x0, y0) && same_target(*x1, *y1),
        (AmlTerm::ToBuffer(x0, x1), AmlTerm::ToBuffer(y0, y1)) => same_term_arg(x0, y0) && same_target(*x1, *y1),
        (AmlTerm::ToDecimalString(x0, x1), AmlTerm::ToDecimalString(y0, y1)) => same_term_arg(x0, y0) && same_target(*x1, *y1),
        (AmlTerm::ToInteger(x0, x1), AmlTerm::ToInteger(y0, y1)) => same_term_arg(x0, y0) && same_target(*x1, *y1),
        (AmlTerm::Mid(x0, x1, x2, x3), AmlTerm::Mid(y0, y1, y2, y3)) => same_term_arg(x0, y0) && same_term_arg(x1, y1) && same_term_arg(x2, y2) && same_target(*x3, *y3),
        (AmlTerm::Add(x0, x1, x2), AmlTerm::Add(y0, y1, y2)) => same_term_arg(x0, y0) && same_term_arg(x1, y1) && same_target(*x2, *y2),
        (AmlTerm::Concat(x0, x1, x2), AmlTerm::Concat(y0, y1, y2)) => same_term_arg(x0, y0) && same_term_arg(x1, y1) && same_target(*x2, *y2),
        (AmlTerm::Subtract(x0, x1, x2), AmlTerm::Subtract(y0, y1, y2)) => same_term_arg(x0, y0) && same_term_arg(x1, y1) && same_target(*x2, *y2),
        (AmlTerm::Multiply(x0, x1, x2), AmlTerm::Multiply(y0, y1, y2)) => same_term_arg(x0, y0) && same_term_arg(x1, y1) && same_target(*x2, *y2),
        (AmlTerm::Divide(x0, x1, x2, x3), AmlTerm::Divide(y0, y1, y2, y3)) => same_term_arg(x0, y0) && same_term_arg(x1, y1) && same_target(*x2, *y2) && same_target(*x3, *y3),
        (AmlTerm::ShiftLeft(x0, x1, x2), AmlTerm::ShiftLeft(y0, y1, y2)) => same_term_arg(x0, y0) && same_term_arg(x1, y1) && same_target(*x2, *y2),
        (AmlTerm::ShiftRight(x0, x1, x2), AmlTerm::ShiftRight(y0, y1, y2)) => same_term_arg(x0, y0) && same_term_arg(x1, y1) && same_target(*x2, *y2),
        (AmlTerm::And(x0, x1, x2), AmlTerm::And(y0, y1, y2)) => same_term_arg(x0, y0) && same_term_arg(x1, y1) && same_target(*x2, *y2),
        (AmlTerm::Nand(x0, x1, x2), AmlTerm::Nand(y0, y1, y2)) => same_term_arg(x0, y0) && same_term_arg(x1, y1) && same_target(*x2, *y2),
        (AmlTerm::Or(x0, x1, x2), AmlTerm::Or(y0, y1, y2)) => same_term_arg(x0, y0) && same_term_arg(x1, y1) && same_target(*x2, *y2),
        (AmlTerm::Nor(x0, x1, x2), AmlTerm::Nor(y0, y1, y2)) => same_term_arg(x0, y0) && same_term_arg(x1, y1) && same_target(*x2, *y2),
        (AmlTerm::Xor(x0, x1, x2), AmlTerm::Xor(y0, y1, y2)) => same_term_arg(x0, y0) && same_term_arg(x1, y1) && same_target(*x2, *y2),
        (AmlTerm::Not(x0, x1), AmlTerm::Not(y0, y1)) => same_term_arg(x0, y0) && same_target(*x1, *y1),
        (AmlTerm::SizeOf(x0), AmlTerm::SizeOf(y0)) => same_target(*x0, *y0),
        (AmlTerm::Store(x0, x1), AmlTerm::Store(y0, y1)) => same_term_arg(x0, y0) && same_target(*x1, *y1),
        (AmlTerm::RefOf(x0), AmlTerm::RefOf(y0)) => same_target(*x0, *y0),
        (AmlTerm::Increment(x0), AmlTerm::Increment(y0)) => same_target(*x0, *y0),
        (AmlTerm::Decrement(x0), AmlTerm::Decrement(y0)) => same_target(*x0, *y0),
        (AmlTerm::While(x0), AmlTerm::While(y0)) => same_predicate_block(x0, y0),
        (AmlTerm::If(x0), AmlTerm::If(y0)) => same_predicate_block(x0, y0),
        (AmlTerm::Else(x0), AmlTerm::Else(y0)) => same_terms_from(x0@, y0@, 0),
        (AmlTerm::Noop, AmlTerm::Noop) => true,
        (AmlTerm::Return(x0), AmlTerm::Return(y0)) => same_term_arg(x0, y0),
        (AmlTerm::Break, AmlTerm::Break) => true,
        (AmlTerm::LAnd(x0, x1), AmlTerm::LAnd(y0, y1)) => same_term_arg(x0, y0) && same_term_arg(x1, y1),
        (AmlTerm::LOr(x0, x1), AmlTerm::LOr(y0, y1)) => same_term_arg(x0, y0) && same_term_arg(x1, y1),
        (AmlTerm::LNot(x0), AmlTerm::LNot(y0)) => same_term_arg(x0, y0),
        (AmlTerm::LNotEqual(x0, x1), AmlTerm::LNotEqual(y0, y1)) => same_term_arg(x0, y0) && same_term_arg(x1, y1),
        (AmlTerm::LLessEqual(x0, x1), AmlTerm::LLessEqual(y0, y1)) => same_term_arg(x0, y0) && same_term_arg(x1, y1),
        (AmlTerm::LGreaterEqual(x0, x1), AmlTerm::LGreaterEqual(y0, y1)) => same_term_arg(x0, y0) && same_term_arg(x1, y1),
        (AmlTerm::LEqual(x0, x1), AmlTerm::LEqual(y0, y1)) => same_term_arg(x0, y0) && same_term_arg(x1, y1),
        (AmlTerm::LGreater(x0, x1), AmlTerm::LGreater(y0, y1)) => same_term_arg(x0, y0) && same_term_arg(x1, y1),
        (AmlTerm::LLess(x0, x1), AmlTerm::LLess(y0, y1)) => same_term_arg(x0, y0) && same_term_arg(x1, y1),
        (AmlTerm::FindSetLeftBit(x0, x1), AmlTerm::FindSetLeftBit(y0, y1)) => same_term_arg(x0, y0) && same_target(*x1, *y1),
        (AmlTerm::FindSetRightBit(x0, x1), AmlTerm::FindSetRightBit(y0, y1)) => same_term_arg(x0, y0) && same_target(*x1, *y1),
        (AmlTerm::DerefOf(x0), AmlTerm::DerefOf(y0)) => same_term_arg(x0, y0),
        (AmlTerm::ConcatRes(x0, x1, x2), AmlTerm::ConcatRes(y0, y1, y2)) => same_term_arg(x0, y0) && same_term_arg(x1, y1) && same_target(*x2, *y2),
        (AmlTerm::Mod(x0, x1, x2), AmlTerm::Mod(y0, y1, y2)) => same_term_arg(x0, y0) && same_term_arg(x1, y1) && same_target(*x2, *y2),
        (AmlTerm::Notify(x0, x1), AmlTerm::Notify(y0, y1)) => same_target(*x0, *y0) && same_term_arg(x1, y1),
        (AmlTerm::Index(x0, x1, x2), AmlTerm::Index(y0, y1, y2)) => same_term_arg(x0, y0) && same_term_arg(x1, y1) && same_target(*x2, *y2),
        (AmlTerm::Mutex(x0, x1), AmlTerm::Mutex(y0, y1)) => x0 == y0 && x1 == y1,
        (AmlTerm::Event(x0), AmlTerm::Event(y0)) => x0 == y0,
        (AmlTerm::CondRefOf(x0, x1), AmlTerm::CondRefOf(y0, y1)) => same_target(*x0, *y0) && same_target(*x1, *y1),
        (AmlTerm::CreateFieldOp(x0, x1, x2, x3), AmlTerm::CreateFieldOp(y0, y1, y2, y3)) => same_term_arg(x0, y0) && same_term_arg(x1, y1) && same_term_arg(x2, y2) && x3 == y3,
        (AmlTerm::Acquire(x0, x1), AmlTerm::Acquire(y0, y1)) => same_target(*x0, *y0) && x1 == y1,
        (AmlTerm::Signal(x0), AmlTerm::Signal(y0)) => same_target(*x0, *y0),
        (AmlTerm::Wait(x0, x1), AmlTerm::Wait(y0, y1)) => same_target(*x0, *y0) && same_term_arg(x1, y1),
        (AmlTerm::Reset(x0), AmlTerm::Reset(y0)) => same_target(*x0, *y0),
        (AmlTerm::Release(x0), AmlTerm::Release(y0)) => same_target(*x0, *y0),
        (AmlTerm::Stall(x0), AmlTerm::Stall(y0)) => same_term_arg(x0, y0),
        (AmlTerm::Sleep(x0), AmlTerm::Sleep(y0)) => same_term_arg(x0, y0),
        (AmlTerm::CreateDWordField(x0, x1, x2), AmlTerm::CreateDWordField(y0, y1, y2)) => same_term_arg(x0, y0) && same_term_arg(x1, y1) && x2 == y2,
        (AmlTerm::CreateWordField(x0, x1, x2), AmlTerm::CreateWordField(y0, y1, y2)) => same_term_arg(x0, y0) && same_term_arg(x1, y1) && x2 == y2,
        (AmlTerm::CreateByteField(x0, x1, x2), AmlTerm::CreateByteField(y0, y1, y2)) => same_term_arg(x0, y0) && same_term_arg(x1, y1) && x2 == y2,
        (AmlTerm::CreateBitField(x0, x1, x2), AmlTerm::CreateBitField(y0, y1, y2)) => same_term_arg(x0, y0) && same_term_arg(x1, y1) && x2 == y2,
        (AmlTerm::CreateQWordField(x0, x1, x2), AmlTerm::CreateQWordField(y0, y1, y2)) => same_term_arg(x0, y0) && same_term_arg(x1, y1) && x2 == y2,
        (AmlTerm::MethodCall(x0, x1), AmlTerm::MethodCall(y0, y1)) => x0 == y0 && same_term_args_from(x1@, y1@, 0),
        (AmlTerm::ObjectType(x0), AmlTerm::ObjectType(y0)) => same_target(*x0, *y0),
        _ => false,
    }
}

/// `a` and `b` are the same tree, up to the identity of vectors.
pub open spec fn same_term_arg(a: TermArg, b: TermArg) -> bool
    decreases a, 0int,
{
    match (a, b) {
        (TermArg::Expression(x0), TermArg::Expression(y0)) => same_term(*x0, *y0),
        (TermArg::DataObject(x0), TermArg::DataObject(y0)) => same_data_object(x0, y0),
        (TermArg::Arg(x0), TermArg::Arg(y0)) => x0 == y0,
        (TermArg::Local(x0), TermArg::Local(y0)) => x0 == y0,
        (TermArg::Name(x0), TermArg::Name(y0)) => x0 == y0,
        _ => false,
    }
}

/// `a` and `b` are the same tree, up to the identity of vectors.
pub open spec fn same_target(a: Target, b: Target) -> bool
    decreases a, 0int,
{
    match (a, b) {
        (Target::Null, Target::Null) => true,
        (Target::Arg(x0), Target::Arg(y0)) => x0 == y0,
        (Target::Local(x0), Target::Local(y0)) => x0 == y0,
        (Target::Name(x0), Target::Name(y0)) => x0 == y0,
        (Target::Debug, Target::Debug) => true,
        (Target::DerefOf(x0), Target::DerefOf(y0)) => same_term_arg(x0, y0),
        (Target::RefOf(x0), Target::RefOf(y0)) => same_target(*x0, *y0),
        (Target::Index(x0, x1, x2), Target::Index(y0, y1, y2)) => same_term_arg(x0, y0) && same_term_arg(x1, y1) && same_target(*x2, *y2),
        _ => false,
    }
}

/// `a` and `b` are the same tree, up to the identity of vectors.
pub open spec fn same_data_object(a: UnresolvedDataObject, b: UnresolvedDataObject) -> bool
    decreases a, 0int,
{
    match (a, b) {
        (UnresolvedDataObject::Integer(x0), UnresolvedDataObject::Integer(y0)) => x0 == y0,
        (UnresolvedDataObject::Buffer(x0), UnresolvedDataObject::Buffer(y0)) => same_buffer(x0, y0),
        (UnresolvedDataObject::Package(x0, x1), UnresolvedDataObject::Package(y0, y1)) => x0 == y0 && same_package_elements_from(x1@, y1@, 0),
        (UnresolvedDataObject::VarPackage(x0, x1), UnresolvedDataObject::VarPackage(y0, y1)) => same_term_arg(*x0, *y0) && same_package_elements_from(x1@, y1@, 0),
        (UnresolvedDataObject::String(x0), UnresolvedDataObject::String(y0)) => x0 == y0,
        (UnresolvedDataObject::EisaId(x0), UnresolvedDataObject::EisaId(y0)) => x0 == y0,
        _ => false,
    }
}

/// `a` and `b` are the same tree, up to the identity of vectors.
pub open spec fn same_field_element(a: FieldElement, b: FieldElement) -> bool
    decreases a, 0int,
{
    match (a, b) {
        (FieldElement::Offset(x0), FieldElement::Offset(y0)) => x0 == y0,
        (FieldElement::Named(x0, x1), FieldElement::Named(y0, y1)) => x0 == y0 && x1 == y1,
        (FieldElement::Access(x0, x1), FieldElement::Access(y0, y1)) => x0 == y0 && x1 == y1,
        (FieldElement::Connection(x0), FieldElement::Connection(y0)) => same_field_connection(x0, y0),
        _ => false,
    }
}

/// `a` and `b` are the same tree, up to the identity of vectors.
pub open spec fn same_field_connection(a: FieldConnection, b: FieldConnection) -> bool
    decreases a, 0int,
{
    match (a, b) {
        (FieldConnection::Buffer(x0), FieldConnection::Buffer(y0)) => same_buffer(x0, y0),
        (FieldConnection::Name(x0), FieldConnection::Name(y0)) => x0 == y0,
        _ => false,
    }
}

/// `a` and `b` are the same tree, up to the identity of vectors.
pub open spec fn same_buffer(a: Buffer, b: Buffer) -> bool
    decreases a, 0int,
{
    same_term_arg(*a.size, *b.size)
        && a.data@ == b.data@
}

/// `a` and `b` are the same tree, up to the identity of vectors.
pub open spec fn same_scope_obj(a: ScopeObj, b: ScopeObj) -> bool
    decreases a, 0int,
{
    a.name == b.name
        && same_terms_from(a.term_list@, b.term_list@, 0)
}

/// `a` and `b` are the same tree, up to the identity of vectors.
pub open spec fn same_region_obj(a: RegionObj, b: RegionObj) -> bool
    decreases a, 0int,
{
    a.name == b.name
        && a.region_space == b.region_space
        && same_term_arg(a.region_offset, b.region_offset)
        && same_term_arg(a.region_length, b.region_length)
}

/// `a` and `b` are the same tree, up to the identity of vectors.
pub open spec fn same_field_def(a: FieldDef, b: FieldDef) -> bool
    decreases a, 0int,
{
    a.name == b.name
        && a.access_type == b.access_type
        && a.need_lock == b.need_lock
        && a.update_rule == b.update_rule
        && same_field_elements_from(a.fields@, b.fields@, 0)
}

/// `a` and `b` are the same tree, up to the identity of vectors.
pub open spec fn same_index_field_def(a: IndexFieldDef, b: IndexFieldDef) -> bool
    decreases a, 0int,
{
    a.name == b.name
        && a.index_name == b.index_name
        && a.access_type == b.access_type
        && a.need_lock == b.need_lock
        && a.update_rule == b.update_rule
        && same_field_elements_from(a.fields@, b.fields@, 0)
}

/// `a` and `b` are the same tree, up to the identity of vectors.
pub open spec fn same_method_obj(a: MethodObj, b: MethodObj) -> bool
    decreases a, 0int,
{
    a.name == b.name
        && a.flags == b.flags
        && same_terms_from(a.term_list@, b.term_list@, 0)
}

/// `a` and `b` are the same tree, up to the identity of vectors.
pub open spec fn same_predicate_block(a: PredicateBlock, b: PredicateBlock) -> bool
    decreases a, 0int,
{
    same_term_arg(a.predicate, b.predicate)
        && same_terms_from(a.term_list@, b.term_list@, 0)
}

/// `a` and `b` are the same tree, up to the identity of vectors.
pub open spec fn same_processor(a: ProcessorDeprecated, b: ProcessorDeprecated) -> bool
    decreases a, 0int,
{
    a.name == b.name
        && a.unk1 == b.unk1
        && a.unk2 == b.unk2
        && a.unk3 == b.unk3
        && same_terms_from(a.term_list@, b.term_list@, 0)
}

/// `a` and `b` are the same tree, up to the identity of vectors.
pub open spec fn same_power_resource(a: PowerResource, b: PowerResource) -> bool
    decreases a, 0int,
{
    a.name == b.name
        && a.system_level == b.system_level
        && a.resource_order == b.resource_order
        && same_terms_from(a.term_list@, b.term_list@, 0)
}

/// `a` and `b` are the same tree, up to the identity of vectors.
pub open spec fn same_package_element(a: PackageElement<UnresolvedDataObject>, b: PackageElement<UnresolvedDataObject>) -> bool
    decreases a, 0int,
{
    match (a, b) {
        (PackageElement::DataObject(x), PackageElement::DataObject(y)) => same_data_object(x, y),
        (PackageElement::Name(x), PackageElement::Name(y)) => x == y,
        _ => false,
    }
}

/// Element-wise sameness of two sequences of trees, from position `k` on.
pub open spec fn same_terms_from(a: Seq<AmlTerm>, b: Seq<AmlTerm>, k: int) -> bool
    decreases a, a.len() - k,
{
    if k < 0 || k >= a.len() {
        a.len() == b.len()
    } else {
        same_term(a[k], b[k]) && same_terms_from(a, b, k + 1)
    }
}

/// Element-wise sameness of two sequences of trees.
pub open spec fn same_terms(a: Seq<AmlTerm>, b: Seq<AmlTerm>) -> bool {
    same_terms_from(a, b, 0)
}

pub proof fn lemma_same_terms(a: Seq<AmlTerm>, b: Seq<AmlTerm>, k: int)
    requires
        a.len() == b.len(),
        0 <= k <= a.len(),
        forall|j: int| k <= j < a.len() ==> #[trigger] same_term(a[j], b[j]),
    ensures
        same_terms_from(a, b, k),
    decreases a.len() - k,
{
    if k < a.len() {
        lemma_same_terms(a, b, k + 1);
        assert(same_term(a[k], b[k]));
    }
    reveal_with_fuel(same_terms_from, 1);
}

/// Sequences that are the same from `k` on have the same length.
pub proof fn lemma_same_terms_len(a: Seq<AmlTerm>, b: Seq<AmlTerm>, k: int)
    requires
        0 <= k,
        same_terms_from(a, b, k),
    ensures
        a.len() == b.len(),
    decreases a.len() - k,
{
    if k < a.len() {
        lemma_same_terms_len(a, b, k + 1);
    }
}

/// A copy of terms that declare nothing declares nothing.
pub proof fn lemma_same_control_terms(a: Seq<AmlTerm>, b: Seq<AmlTerm>, k: int)
    requires
        0 <= k,
        same_terms_from(a, b, k),
        forall|i: int| k <= i < b.len() ==> crate::acpi::aml::structured::declares_nothing(#[trigger] b[i]),
    ensures
        forall|i: int| k <= i < a.len() ==> crate::acpi::aml::structured::declares_nothing(#[trigger] a[i]),
    decreases a.len() - k,
{
    if k < a.len() {
        lemma_same_terms_len(a, b, k);
        assert(crate::acpi::aml::structured::declares_nothing(b[k]));
        assert(same_term(a[k], b[k]));
        lemma_same_control_terms(a, b, k + 1);
    }
}

/// Element-wise sameness of two sequences of trees, from position `k` on.
pub open spec fn same_term_args_from(a: Seq<TermArg>, b: Seq<TermArg>, k: int) -> bool
    decreases a, a.len() - k,
{
    if k < 0 || k >= a.len() {
        a.len() == b.len()
    } else {
        same_term_arg(a[k], b[k]) && same_term_args_from(a, b, k + 1)
    }
}

/// Element-wise sameness of two sequences of trees.
pub open spec fn same_term_args(a: Seq<TermArg>, b: Seq<TermArg>) -> bool {
    same_term_args_from(a, b, 0)
}

pub proof fn lemma_same_term_args(a: Seq<TermArg>, b: Seq<TermArg>, k: int)
    requires
        a.len() == b.len(),
        0 <= k <= a.len(),
        forall|j: int| k <= j < a.len() ==> #[trigger] same_term_arg(a[j], b[j]),
    ensures
        same_term_args_from(a, b, k),
    decreases a.len() - k,
{
    if k < a.len() {
        lemma_same_term_args(a, b, k + 1);
        assert(same_term_arg(a[k], b[k]));
    }
    reveal_with_fuel(same_term_args_from, 1);
}

/// Element-wise sameness of two sequences of trees, from position `k` on.
pub open spec fn same_field_elements_from(a: Seq<FieldElement>, b: Seq<FieldElement>, k: int) -> bool
    decreases a, a.len() - k,
{
    if k < 0 || k >= a.len() {
        a.len() == b.len()
    } else {
        same_field_element(a[k], b[k]) && same_field_elements_from(a, b, k + 1)
    }
}

/// Element-wise sameness of two sequences of trees.
pub open spec fn same_field_elements(a: Seq<FieldElement>, b: Seq<FieldElement>) -> bool {
    same_field_elements_from(a, b, 0)
}

pub proof fn lemma_same_field_elements(a: Seq<FieldElement>, b: Seq<FieldElement>, k: int)
    requires
        a.len() == b.len(),
        0 <= k <= a.len(),
        forall|j: int| k <= j < a.len() ==> #[trigger] same_field_element(a[j], b[j]),
    ensures
        same_field_elements_from(a, b, k),
    decreases a.len() - k,
{
    if k < a.len() {
        lemma_same_field_elements(a, b, k + 1);
        assert(same_field_element(a[k], b[k]));
    }
    reveal_with_fuel(same_field_elements_from, 1);
}

/// Element-wise sameness of two sequences of trees, from position `k` on.
pub open spec fn same_package_elements_from(a: Seq<PackageElement<UnresolvedDataObject>>, b: Seq<PackageElement<UnresolvedDataObject>>, k: int) -> bool
    decreases a, a.len() - k,
{
    if k < 0 || k >= a.len() {
        a.len() == b.len()
    } else {
        same_package_element(a[k], b[k]) && same_package_elements_from(a, b, k + 1)
    }
}

/// Element-wise sameness of two sequences of trees.
pub open spec fn same_package_elements(a: Seq<PackageElement<UnresolvedDataObject>>, b: Seq<PackageElement<UnresolvedDataObject>>) -> bool {
    same_package_elements_from(a, b, 0)
}

pub proof fn lemma_same_package_elements(a: Seq<PackageElement<UnresolvedDataObject>>, b: Seq<PackageElement<UnresolvedDataObject>>, k: int)
    requires
        a.len() == b.len(),
        0 <= k <= a.len(),
        forall|j: int| k <= j < a.len() ==> #[trigger] same_package_element(a[j], b[j]),
    ensures
        same_package_elements_from(a, b, k),
    decreases a.len() - k,
{
    if k < a.len() {
        lemma_same_package_elements(a, b, k + 1);
        assert(same_package_element(a[k], b[k]));
    }
    reveal_with_fuel(same_package_elements_from, 1);
}

pub fn copy_term(t: &AmlTerm) -> (r: AmlTerm)
    ensures
        same_term(r, *t),
    decreases t,
{
    match t {
        AmlTerm::Scope(a0) => AmlTerm::Scope(copy_scope_obj(a0)),
        AmlTerm::Region(a0) => AmlTerm::Region(copy_region_obj(a0)),
        AmlTerm::Field(a0) => AmlTerm::Field(copy_field_def(a0)),
        AmlTerm::IndexField(a0) => AmlTerm::IndexField(copy_index_field_def(a0)),
        AmlTerm::Device(a0) => AmlTerm::Device(copy_scope_obj(a0)),
        AmlTerm::Processor(a0) => AmlTerm::Processor(copy_processor(a0)),
        AmlTerm::PowerResource(a0) => AmlTerm::PowerResource(copy_power_resource(a0)),
        AmlTerm::Method(a0) => AmlTerm::Method(copy_method_obj(a0)),
        AmlTerm::NameObj(a0, a1) => AmlTerm::NameObj(copy_string(a0), copy_data_object(a1)),
        AmlTerm::Alias(a0, a1) => AmlTerm::Alias(copy_string(a0), copy_string(a1)),
        AmlTerm::ToHexString(a0, a1) => AmlTerm::ToHexString(copy_term_arg(a0), Box::new(copy_target(&**a1))),
        AmlTerm::ToBuffer(a0, a1) => AmlTerm::ToBuffer(copy_term_arg(a0), Box::new(copy_target(&**a1))),
        AmlTerm::ToDecimalString(a0, a1) => AmlTerm::ToDecimalString(copy_term_arg(a0), Box::new(copy_target(&**a1))),
        AmlTerm::ToInteger(a0, a1) => AmlTerm::ToInteger(copy_term_arg(a0), Box::new(copy_target(&**a1))),
        AmlTerm::Mid(a0, a1, a2, a3) => AmlTerm::Mid(copy_term_arg(a0), copy_term_arg(a1), copy_term_arg(a2), Box::new(copy_target(&**a3))),
        AmlTerm::Add(a0, a1, a2) => AmlTerm::Add(copy_term_arg(a0), copy_term_arg(a1), Box::new(copy_target(&**a2))),
        AmlTerm::Concat(a0, a1, a2) => AmlTerm::Concat(copy_term_arg(a0), copy_term_arg(a1), Box::new(copy_target(&**a2))),
        AmlTerm::Subtract(a0, a1, a2) => AmlTerm::Subtract(copy_term_arg(a0), copy_term_arg(a1), Box::new(copy_target(&**a2))),
        AmlTerm::Multiply(a0, a1, a2) => AmlTerm::Multiply(copy_term_arg(a0), copy_term_arg(a1), Box::new(copy_target(&**a2))),
        AmlTerm::Divide(a0, a1, a2, a3) => AmlTerm::Divide(copy_term_arg(a0), copy_term_arg(a1), Box::new(copy_target(&**a2)), Box::new(copy_target(&**a3))),
        AmlTerm::ShiftLeft(a0, a1, a2) => AmlTerm::ShiftLeft(copy_term_arg(a0), copy_term_arg(a1), Box::new(copy_target(&**a2))),
        AmlTerm::ShiftRight(a0, a1, a2) => AmlTerm::ShiftRight(copy_term_arg(a0), copy_term_arg(a1), Box::new(copy_target(&**a2))),
        AmlTerm::And(a0, a1, a2) => AmlTerm::And(copy_term_arg(a0), copy_term_arg(a1), Box::new(copy_target(&**a2))),
        AmlTerm::Nand(a0, a1, a2) => AmlTerm::Nand(copy_term_arg(a0), copy_term_arg(a1), Box::new(copy_target(&**a2))),
        AmlTerm::Or(a0, a1, a2) => AmlTerm::Or(copy_term_arg(a0), copy_term_arg(a1), Box::new(copy_target(&**a2))),
        AmlTerm::Nor(a0, a1, a2) => AmlTerm::Nor(copy_term_arg(a0), copy_term_arg(a1), Box::new(copy_target(&**a2))),
        AmlTerm::Xor(a0, a1, a2) => AmlTerm::Xor(copy_term_arg(a0), copy_term_arg(a1), Box::new(copy_target(&**a2))),
        AmlTerm::Not(a0, a1) => AmlTerm::Not(copy_term_arg(a0), Box::new(copy_target(&**a1))),
        AmlTerm::SizeOf(a0) => AmlTerm::SizeOf(Box::new(copy_target(&**a0))),
        AmlTerm::Store(a0, a1) => AmlTerm::Store(copy_term_arg(a0), Box::new(copy_target(&**a1))),
        AmlTerm::RefOf(a0) => AmlTerm::RefOf(Box::new(copy_target(&**a0))),
        AmlTerm::Increment(a0) => AmlTerm::Increment(Box::new(copy_target(&**a0))),
        AmlTerm::Decrement(a0) => AmlTerm::Decrement(Box::new(copy_target(&**a0))),
        AmlTerm::While(a0) => AmlTerm::While(copy_predicate_block(a0)),
        AmlTerm::If(a0) => AmlTerm::If(copy_predicate_block(a0)),
        AmlTerm::Else(a0) => AmlTerm::Else(copy_terms(a0)),
        AmlTerm::Noop => AmlTerm::Noop,
        AmlTerm::Return(a0) => AmlTerm::Return(copy_term_arg(a0)),
        AmlTerm::Break => AmlTerm::Break,
        AmlTerm::LAnd(a0, a1) => AmlTerm::LAnd(copy_term_arg(a0), copy_term_arg(a1)),
        AmlTerm::LOr(a0, a1) => AmlTerm::LOr(copy_term_arg(a0), copy_term_arg(a1)),
        AmlTerm::LNot(a0) => AmlTerm::LNot(copy_term_arg(a0)),
        AmlTerm::LNotEqual(a0, a1) => AmlTerm::LNotEqual(copy_term_arg(a0), copy_term_arg(a1)),
        AmlTerm::LLessEqual(a0, a1) => AmlTerm::LLessEqual(copy_term_arg(a0), copy_term_arg(a1)),
        AmlTerm::LGreaterEqual(a0, a1) => AmlTerm::LGreaterEqual(copy_term_arg(a0), copy_term_arg(a1)),
        AmlTerm::LEqual(a0, a1) => AmlTerm::LEqual(copy_term_arg(a0), copy_term_arg(a1)),
        AmlTerm::LGreater(a0, a1) => AmlTerm::LGreater(copy_term_arg(a0), copy_term_arg(a1)),
        AmlTerm::LLess(a0, a1) => AmlTerm::LLess(copy_term_arg(a0), copy_term_arg(a1)),
        AmlTerm::FindSetLeftBit(a0, a1) => AmlTerm::FindSetLeftBit(copy_term_arg(a0), Box::new(copy_target(&**a1))),
        AmlTerm::FindSetRightBit(a0, a1) => AmlTerm::FindSetRightBit(copy_term_arg(a0), Box::new(copy_target(&**a1))),
        AmlTerm::DerefOf(a0) => AmlTerm::DerefOf(copy_term_arg(a0)),
        AmlTerm::ConcatRes(a0, a1, a2) => AmlTerm::ConcatRes(copy_term_arg(a0), copy_term_arg(a1), Box::new(copy_target(&**a2))),
        AmlTerm::Mod(a0, a1, a2) => AmlTerm::Mod(copy_term_arg(a0), copy_term_arg(a1), Box::new(copy_target(&**a2))),
        AmlTerm::Notify(a0, a1) => AmlTerm::Notify(Box::new(copy_target(&**a0)), copy_term_arg(a1)),
        AmlTerm::Index(a0, a1, a2) => AmlTerm::Index(copy_term_arg(a0), copy_term_arg(a1), Box::new(copy_target(&**a2))),
        AmlTerm::Mutex(a0, a1) => AmlTerm::Mutex(copy_string(a0), *a1),
        AmlTerm::Event(a0) => AmlTerm::Event(copy_string(a0)),
        AmlTerm::CondRefOf(a0, a1) => AmlTerm::CondRefOf(Box::new(copy_target(&**a0)), Box::new(copy_target(&**a1))),
        AmlTerm::CreateFieldOp(a0, a1, a2, a3) => AmlTerm::CreateFieldOp(copy_term_arg(a0), copy_term_arg(a1), copy_term_arg(a2), copy_string(a3)),
        AmlTerm::Acquire(a0, a1) => AmlTerm::Acquire(Box::new(copy_target(&**a0)), *a1),
        AmlTerm::Signal(a0) => AmlTerm::Signal(Box::new(copy_target(&**a0))),
        AmlTerm::Wait(a0, a1) => AmlTerm::Wait(Box::new(copy_target(&**a0)), copy_term_arg(a1)),
        AmlTerm::Reset(a0) => AmlTerm::Reset(Box::new(copy_target(&**a0))),
        AmlTerm::Release(a0) => AmlTerm::Release(Box::new(copy_target(&**a0))),
        AmlTerm::Stall(a0) => AmlTerm::Stall(copy_term_arg(a0)),
        AmlTerm::Sleep(a0) => AmlTerm::Sleep(copy_term_arg(a0)),
        AmlTerm::CreateDWordField(a0, a1, a2) => AmlTerm::CreateDWordField(copy_term_arg(a0), copy_term_arg(a1), copy_string(a2)),
        AmlTerm::CreateWordField(a0, a1, a2) => AmlTerm::CreateWordField(copy_term_arg(a0), copy_term_arg(a1), copy_string(a2)),
        AmlTerm::CreateByteField(a0, a1, a2) => AmlTerm::CreateByteField(copy_term_arg(a0), copy_term_arg(a1), copy_string(a2)),
        AmlTerm::CreateBitField(a0, a1, a2) => AmlTerm::CreateBitField(copy_term_arg(a0), copy_term_arg(a1), copy_string(a2)),
        AmlTerm::CreateQWordField(a0, a1, a2) => AmlTerm::CreateQWordField(copy_term_arg(a0), copy_term_arg(a1), copy_string(a2)),
        AmlTerm::MethodCall(a0, a1) => AmlTerm::MethodCall(copy_string(a0), copy_term_args(a1)),
        AmlTerm::ObjectType(a0) => AmlTerm::ObjectType(Box::new(copy_target(&**a0))),
    }
}

pub fn copy_term_arg(t: &TermArg) -> (r: TermArg)
    ensures
        same_term_arg(r, *t),
    decreases t,
{
    match t {
        TermArg::Expression(a0) => TermArg::Expression(Box::new(copy_term(&**a0))),
        TermArg::DataObject(a0) => TermArg::DataObject(copy_data_object(a0)),
        TermArg::Arg(a0) => TermArg::Arg(*a0),
        TermArg::Local(a0) => TermArg::Local(*a0),
        TermArg::Name(a0) => TermArg::Name(copy_string(a0)),
    }
}

pub fn copy_target(t: &Target) -> (r: Target)
    ensures
        same_target(r, *t),
    decreases t,
{
    match t {
        Target::Null => Target::Null,
        Target::Arg(a0) => Target::Arg(*a0),
        Target::Local(a0) => Target::Local(*a0),
        Target::Name(a0) => Target::Name(copy_string(a0)),
        Target::Debug => Target::Debug,
        Target::DerefOf(a0) => Target::DerefOf(copy_term_arg(a0)),
        Target::RefOf(a0) => Target::RefOf(Box::new(copy_target(&**a0))),
        Target::Index(a0, a1, a2) => Target::Index(copy_term_arg(a0), copy_term_arg(a1), Box::new(copy_target(&**a2))),
    }
}

pub fn copy_data_object(t: &UnresolvedDataObject) -> (r: UnresolvedDataObject)
    ensures
        same_data_object(r, *t),
    decreases t,
{
    match t {
        UnresolvedDataObject::Integer(a0) => UnresolvedDataObject::Integer(*a0),
        UnresolvedDataObject::Buffer(a0) => UnresolvedDataObject::Buffer(copy_buffer(a0)),
        UnresolvedDataObject::Package(a0, a1) => UnresolvedDataObject::Package(*a0, copy_package_elements(a1)),
        UnresolvedDataObject::VarPackage(a0, a1) => UnresolvedDataObject::VarPackage(Box::new(copy_term_arg(&**a0)), copy_package_elements(a1)),
        UnresolvedDataObject::String(a0) => UnresolvedDataObject::String(copy_string(a0)),
        UnresolvedDataObject::EisaId(a0) => UnresolvedDataObject::EisaId(copy_string(a0)),
    }
}

pub fn copy_field_element(t: &FieldElement) -> (r: FieldElement)
    ensures
        same_field_element(r, *t),
    decreases t,
{
    match t {
        FieldElement::Offset(a0) => FieldElement::Offset(*a0),
        FieldElement::Named(a0, a1) => FieldElement::Named(copy_string(a0), *a1),
        FieldElement::Access(a0, a1) => FieldElement::Access(*a0, *a1),
        FieldElement::Connection(a0) => FieldElement::Connection(copy_field_connection(a0)),
    }
}

pub fn copy_field_connection(t: &FieldConnection) -> (r: FieldConnection)
    ensures
        same_field_connection(r, *t),
    decreases t,
{
    match t {
        FieldConnection::Buffer(a0) => FieldConnection::Buffer(copy_buffer(a0)),
        FieldConnection::Name(a0) => FieldConnection::Name(copy_string(a0)),
    }
}

pub fn copy_buffer(t: &Buffer) -> (r: Buffer)
    ensures
        same_buffer(r, *t),
    decreases t,
{
    Buffer {
        size: Box::new(copy_term_arg(&**&t.size)),
        data: copy_bytes(&t.data),
    }
}

pub fn copy_scope_obj(t: &ScopeObj) -> (r: ScopeObj)
    ensures
        same_scope_obj(r, *t),
    decreases t,
{
    ScopeObj {
        name: copy_string(&t.name),
        term_list: copy_terms(&t.term_list),
    }
}

pub fn copy_region_obj(t: &RegionObj) -> (r: RegionObj)
    ensures
        same_region_obj(r, *t),
    decreases t,
{
    RegionObj {
        name: copy_string(&t.name),
        region_space: *&t.region_space,
        region_offset: copy_term_arg(&t.region_offset),
        region_length: copy_term_arg(&t.region_length),
    }
}

pub fn copy_field_def(t: &FieldDef) -> (r: FieldDef)
    ensures
        same_field_def(r, *t),
    decreases t,
{
    FieldDef {
        name: copy_string(&t.name),
        access_type: *&t.access_type,
        need_lock: *&t.need_lock,
        update_rule: *&t.update_rule,
        fields: copy_field_elements(&t.fields),
    }
}

pub fn copy_index_field_def(t: &IndexFieldDef) -> (r: IndexFieldDef)
    ensures
        same_index_field_def(r, *t),
    decreases t,
{
    IndexFieldDef {
        name: copy_string(&t.name),
        index_name: copy_string(&t.index_name),
        access_type: *&t.access_type,
        need_lock: *&t.need_lock,
        update_rule: *&t.update_rule,
        fields: copy_field_elements(&t.fields),
    }
}

pub fn copy_method_obj(t: &MethodObj) -> (r: MethodObj)
    ensures
        same_method_obj(r, *t),
    decreases t,
{
    MethodObj {
        name: copy_string(&t.name),
        flags: *&t.flags,
        term_list: copy_terms(&t.term_list),
    }
}

pub fn copy_predicate_block(t: &PredicateBlock) -> (r: PredicateBlock)
    ensures
        same_predicate_block(r, *t),
    decreases t,
{
    PredicateBlock {
        predicate: copy_term_arg(&t.predicate),
        term_list: copy_terms(&t.term_list),
    }
}

pub fn copy_processor(t: &ProcessorDeprecated) -> (r: ProcessorDeprecated)
    ensures
        same_processor(r, *t),
    decreases t,
{
    ProcessorDeprecated {
        name: copy_string(&t.name),
        unk1: *&t.unk1,
        unk2: *&t.unk2,
        unk3: *&t.unk3,
        term_list: copy_terms(&t.term_list),
    }
}

pub fn copy_power_resource(t: &PowerResource) -> (r: PowerResource)
    ensures
        same_power_resource(r, *t),
    decreases t,
{
    PowerResource {
        name: copy_string(&t.name),
        system_level: *&t.system_level,
        resource_order: *&t.resource_order,
        term_list: copy_terms(&t.term_list),
    }
}

pub fn copy_package_element(t: &PackageElement<UnresolvedDataObject>) -> (r: PackageElement<UnresolvedDataObject>)
    ensures
        same_package_element(r, *t),
    decreases t,
{
    match t {
        PackageElement::DataObject(d) => PackageElement::DataObject(copy_data_object(d)),
        PackageElement::Name(n) => PackageElement::Name(copy_string(n)),
    }
}

pub fn copy_terms(v: &Vec<AmlTerm>) -> (r: Vec<AmlTerm>)
    ensures
        same_terms_from(r@, v@, 0),
    decreases v,
{
    let mut r: Vec<AmlTerm> = Vec::new();
    let mut i: usize = 0;
    while i < v.len()
        invariant
            i <= v@.len(),
            r@.len() == i,
            forall|j: int| 0 <= j < i ==> #[trigger] same_term(r@[j], v@[j]),
        decreases v@.len() - i,
    {
        proof {
            assert(decreases_to!(v => v@[i as int]));
        }
        let e = copy_term(&v[i]);
        r.push(e);
        i = i + 1;
    }
    assert(forall|j: int| 0 <= j < r@.len() ==> #[trigger] same_term(r@[j], v@[j]));
    proof {
        lemma_same_terms(r@, v@, 0);
    }
    r
}

pub fn copy_term_args(v: &Vec<TermArg>) -> (r: Vec<TermArg>)
    ensures
        same_term_args_from(r@, v@, 0),
    decreases v,
{
    let mut r: Vec<TermArg> = Vec::new();
    let mut i: usize = 0;
    while i < v.len()
        invariant
            i <= v@.len(),
            r@.len() == i,
            forall|j: int| 0 <= j < i ==> #[trigger] same_term_arg(r@[j], v@[j]),
        decreases v@.len() - i,
    {
        proof {
            assert(decreases_to!(v => v@[i as int]));
        }
        let e = copy_term_arg(&v[i]);
        r.push(e);
        i = i + 1;
    }
    assert(forall|j: int| 0 <= j < r@.len() ==> #[trigger] same_term_arg(r@[j], v@[j]));
    proof {
        lemma_same_term_args(r@, v@, 0);
    }
    r
}

pub fn copy_field_elements(v: &Vec<FieldElement>) -> (r: Vec<FieldElement>)
    ensures
        same_field_elements_from(r@, v@, 0),
    decreases v,
{
    let mut r: Vec<FieldElement> = Vec::new();
    let mut i: usize = 0;
    while i < v.len()
        invariant
            i <= v@.len(),
            r@.len() == i,
            forall|j: int| 0 <= j < i ==> #[trigger] same_field_element(r@[j], v@[j]),
        decreases v@.len() - i,
    {
        proof {
            assert(decreases_to!(v => v@[i as int]));
        }
        let e = copy_field_element(&v[i]);
        r.push(e);
        i = i + 1;
    }
    assert(forall|j: int| 0 <= j < r@.len() ==> #[trigger] same_field_element(r@[j], v@[j]));
    proof {
        lemma_same_field_elements(r@, v@, 0);
    }
    r
}

pub fn copy_package_elements(v: &Vec<PackageElement<UnresolvedDataObject>>) -> (r: Vec<PackageElement<UnresolvedDataObject>>)
    ensures
        same_package_elements_from(r@, v@, 0),
    decreases v,
{
    let mut r: Vec<PackageElement<UnresolvedDataObject>> = Vec::new();
    let mut i: usize = 0;
    while i < v.len()
        invariant
            i <= v@.len(),
            r@.len() == i,
            forall|j: int| 0 <= j < i ==> #[trigger] same_package_element(r@[j], v@[j]),
        decreases v@.len() - i,
    {
        proof {
            assert(decreases_to!(v => v@[i as int]));
        }
        let e = copy_package_element(&v[i]);
        r.push(e);
        i = i + 1;
    }
    assert(forall|j: int| 0 <= j < r@.len() ==> #[trigger] same_package_element(r@[j], v@[j]));
    proof {
        lemma_same_package_elements(r@, v@, 0);
    }
    r
}

pub fn copy_bytes(v: &Vec<u8>) -> (r: Vec<u8>)
    ensures
        r@ == v@,
{
    let mut r: Vec<u8> = Vec::new();
    let mut i: usize = 0;
    while i < v.len()
        invariant
            i <= v@.len(),
            r@ == v@.subrange(0, i as int),
        decreases v@.len() - i,
    {
        r.push(v[i]);
        i = i + 1;
        proof {
            assert(r@ =~= v@.subrange(0, i as int));
        }
    }
    assert(v@.subrange(0, v@.len() as int) =~= v@);
    r
}

} // verus!
