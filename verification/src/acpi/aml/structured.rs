//! The named objects of parsed AML code, arranged in a tree of scopes.
//!
//! Each scope maps four-character name segments to elements. Scopes and
//! devices nest; regions and their fields are gathered under the region's
//! name. Names may be absolute (`\`), relative to the scope being built, or
//! relative to a parent (`^`).
//!
//! The specification describes a scope by a model (`ScopeModel`) that keeps
//! the names as character sequences and the vectors as sequences. The model
//! of a scope that was built is the one computed by the spec functions of
//! this module from the model of what it was built from.

use vstd::prelude::*;
use crate::text::{
    append_str, char_at, char_len, find_char, index_from, lemma_index_from, lemma_rindex_from,
    push_char, rfind_char, rindex_from, string_from, substring, trim_backslashes,
    trim_leading_backslashes,
};
use super::parser::{
    AccessType, AmlTerm, FieldDef, FieldElement, FieldUpdateRule, IndexFieldDef, MethodObj,
    PowerResource, ProcessorDeprecated, RegionObj, RegionSpace, ScopeObj, ScopeType, TermArg,
    UnresolvedDataObject, AmlCode,
};
use super::parser::copy::{copy_terms, same_terms_from};

verus! {

/// Errors while building or querying the tree.
#[derive(Debug, Clone)]
pub enum StructuredAmlError {
    QueryPathMustBeAbsolute,
    /// The root `\` is not stored in an element, so it cannot be looked up.
    CannotQueryRoot,
    PartOfPathNotScope(String),
    InvalidName(String),
    /// Two declarations of one name that cannot be put together (such as a
    /// method and a scope, or two regions), a name in a place where it
    /// cannot stand, or a parent reference (`^`) that has no parent. Holds
    /// the name that was being added.
    MalformedScope(String),
}

/// A scope of the tree: its kind, and its children in increasing order of
/// their names.
#[derive(Debug)]
pub struct Scope {
    pub ty: ScopeType,
    pub children: Vec<(String, ElementType)>,
}

/// An element of a scope.
#[derive(Debug)]
pub enum ElementType {
    ScopeOrDevice(Scope),
    Method(MethodObj),
    Processor(ProcessorDeprecated),
    PowerResource(PowerResource),
    RegionFields(Option<RegionObj>, Vec<FieldDef>),
    IndexField(IndexFieldDef),
    Name(UnresolvedDataObject),
    UnknownElements(Vec<AmlTerm>),
}

/// The whole tree; `root` is the scope `\`.
#[derive(Debug)]
pub struct StructuredAml {
    pub root: Scope,
}

// ---------------------------------------------------------------------------
// Models

/// Name, region space, offset and length of a region.
pub type RegionModel = (Seq<char>, RegionSpace, TermArg, TermArg);

/// Name, access type, lock flag, update rule and elements of a field list.
pub type FieldModel = (Seq<char>, AccessType, bool, FieldUpdateRule, Seq<FieldElement>);

/// The model of an element.
pub enum ElementModel {
    ScopeOrDevice(ScopeModel),
    /// Name, flags and body.
    Method(Seq<char>, u8, Seq<AmlTerm>),
    /// Name, the three header values and body.
    Processor(Seq<char>, u8, u32, u8, Seq<AmlTerm>),
    /// Name, system level, resource order and body.
    PowerResource(Seq<char>, u8, u16, Seq<AmlTerm>),
    RegionFields(Option<RegionModel>, Seq<FieldModel>),
    /// Name, index name, access type, lock flag, update rule and elements.
    IndexField(Seq<char>, Seq<char>, AccessType, bool, FieldUpdateRule, Seq<FieldElement>),
    Name(UnresolvedDataObject),
    UnknownElements(Seq<AmlTerm>),
}

/// The model of a scope.
pub struct ScopeModel {
    pub ty: ScopeType,
    pub children: Seq<(Seq<char>, ElementModel)>,
}

pub open spec fn region_model(r: RegionObj) -> RegionModel {
    (r.name@, r.region_space, r.region_offset, r.region_length)
}

pub open spec fn field_model(f: FieldDef) -> FieldModel {
    (f.name@, f.access_type, f.need_lock, f.update_rule, f.fields@)
}

pub open spec fn fields_model(s: Seq<FieldDef>) -> Seq<FieldModel> {
    Seq::new(s.len(), |i: int| field_model(s[i]))
}

pub open spec fn element_model(e: ElementType) -> ElementModel
    decreases e,
{
    match e {
        ElementType::ScopeOrDevice(s) => ElementModel::ScopeOrDevice(scope_model(s)),
        ElementType::Method(m) => ElementModel::Method(m.name@, m.flags, m.term_list@),
        ElementType::Processor(p) => ElementModel::Processor(
            p.name@,
            p.unk1,
            p.unk2,
            p.unk3,
            p.term_list@,
        ),
        ElementType::PowerResource(p) => ElementModel::PowerResource(
            p.name@,
            p.system_level,
            p.resource_order,
            p.term_list@,
        ),
        ElementType::RegionFields(r, f) => ElementModel::RegionFields(
            match r {
                Some(x) => Some(region_model(x)),
                None => None,
            },
            fields_model(f@),
        ),
        ElementType::IndexField(f) => ElementModel::IndexField(
            f.name@,
            f.index_name@,
            f.access_type,
            f.need_lock,
            f.update_rule,
            f.fields@,
        ),
        ElementType::Name(d) => ElementModel::Name(d),
        ElementType::UnknownElements(v) => ElementModel::UnknownElements(v@),
    }
}

pub open spec fn scope_model(s: Scope) -> ScopeModel
    decreases s,
{
    ScopeModel { ty: s.ty, children: children_model(s.children@) }
}

pub open spec fn children_model(c: Seq<(String, ElementType)>) -> Seq<(Seq<char>, ElementModel)>
    decreases c,
{
    if c.len() == 0 {
        Seq::empty()
    } else {
        children_model(c.subrange(0, c.len() - 1)).push(
            (c[c.len() - 1].0@, element_model(c[c.len() - 1].1)),
        )
    }
}

pub proof fn lemma_children_model(c: Seq<(String, ElementType)>)
    ensures
        children_model(c).len() == c.len(),
        forall|i: int|
            0 <= i < c.len() ==> #[trigger] children_model(c)[i] == (
                c[i].0@,
                element_model(c[i].1),
            ),
    decreases c.len(),
{
    if c.len() > 0 {
        let p = c.subrange(0, c.len() - 1);
        lemma_children_model(p);
        assert forall|i: int| 0 <= i < c.len() implies #[trigger] children_model(c)[i] == (
            c[i].0@,
            element_model(c[i].1),
        ) by {
            if i < c.len() - 1 {
                assert(p[i] == c[i]);
            }
        }
    }
}

// ---------------------------------------------------------------------------
// Order of names

/// The order of strings: lexicographic by characters (which is also the
/// order of their UTF-8 bytes).
pub open spec fn key_lt(a: Seq<char>, b: Seq<char>) -> bool
    decreases a.len(),
{
    if a.len() == 0 {
        b.len() > 0
    } else if b.len() == 0 {
        false
    } else if a[0] != b[0] {
        (a[0] as int) < (b[0] as int)
    } else {
        key_lt(a.drop_first(), b.drop_first())
    }
}

pub proof fn lemma_key_lt_irreflexive(a: Seq<char>)
    ensures
        !key_lt(a, a),
    decreases a.len(),
{
    if a.len() > 0 {
        lemma_key_lt_irreflexive(a.drop_first());
    }
}

pub proof fn lemma_key_lt_transitive(a: Seq<char>, b: Seq<char>, c: Seq<char>)
    requires
        key_lt(a, b),
        key_lt(b, c),
    ensures
        key_lt(a, c),
    decreases a.len(),
{
    if a.len() > 0 && b.len() > 0 && c.len() > 0 && a[0] == b[0] && b[0] == c[0] {
        lemma_key_lt_transitive(a.drop_first(), b.drop_first(), c.drop_first());
    }
}

pub proof fn lemma_key_lt_total(a: Seq<char>, b: Seq<char>)
    requires
        a != b,
    ensures
        key_lt(a, b) || key_lt(b, a),
    decreases a.len(),
{
    if a.len() > 0 && b.len() > 0 && a[0] == b[0] {
        if a.drop_first() == b.drop_first() {
            assert(a =~= seq![a[0]] + a.drop_first());
            assert(b =~= seq![b[0]] + b.drop_first());
        }
        lemma_key_lt_total(a.drop_first(), b.drop_first());
    } else if a.len() == 0 && b.len() == 0 {
        assert(a =~= b);
    } else if a.len() > 0 && b.len() > 0 {
        assert((a[0] as int) != (b[0] as int));
    }
}

pub proof fn lemma_key_lt_asymmetric(a: Seq<char>, b: Seq<char>)
    requires
        key_lt(a, b),
    ensures
        !key_lt(b, a),
        a != b,
{
    lemma_key_lt_irreflexive(a);
    if key_lt(b, a) {
        lemma_key_lt_transitive(a, b, a);
    }
}

/// Whether `a` comes before `b` in the order of names.
pub fn str_lt(a: &str, b: &str) -> (r: bool)
    ensures
        r == key_lt(a@, b@),
{
    let n = char_len(a);
    let m = char_len(b);
    let mut i: usize = 0;
    assert(a@.skip(0) =~= a@);
    assert(b@.skip(0) =~= b@);
    while i < n && i < m
        invariant
            n == a@.len(),
            m == b@.len(),
            i <= n,
            i <= m,
            key_lt(a@, b@) == key_lt(a@.skip(i as int), b@.skip(i as int)),
        decreases n - i,
    {
        let x = char_at(a, i);
        let y = char_at(b, i);
        assert(a@.skip(i as int)[0] == x && b@.skip(i as int)[0] == y);
        if x != y {
            return (x as u32) < (y as u32);
        }
        assert(a@.skip(i as int).drop_first() =~= a@.skip(i + 1));
        assert(b@.skip(i as int).drop_first() =~= b@.skip(i + 1));
        i = i + 1;
    }
    i == n && i < m
}

// ---------------------------------------------------------------------------
// Well-formedness: names in increasing order, in every nested scope

pub open spec fn sorted_keys(c: Seq<(Seq<char>, ElementModel)>) -> bool {
    forall|i: int, j: int| 0 <= i < j < c.len() ==> key_lt(#[trigger] c[i].0, #[trigger] c[j].0)
}

pub open spec fn element_wf(e: ElementModel) -> bool
    decreases e,
{
    match e {
        ElementModel::ScopeOrDevice(s) => sorted_keys(s.children) && children_wf(s.children),
        _ => true,
    }
}

pub open spec fn children_wf(c: Seq<(Seq<char>, ElementModel)>) -> bool
    decreases c,
{
    if c.len() == 0 {
        true
    } else {
        children_wf(c.subrange(0, c.len() - 1)) && element_wf(c[c.len() - 1].1)
    }
}

pub open spec fn scope_wf(m: ScopeModel) -> bool {
    element_wf(ElementModel::ScopeOrDevice(m))
}

pub proof fn lemma_children_wf(c: Seq<(Seq<char>, ElementModel)>)
    ensures
        children_wf(c) <==> forall|i: int| 0 <= i < c.len() ==> element_wf(#[trigger] c[i].1),
    decreases c.len(),
{
    if c.len() > 0 {
        let p = c.subrange(0, c.len() - 1);
        lemma_children_wf(p);
        if forall|i: int| 0 <= i < c.len() ==> element_wf(#[trigger] c[i].1) {
            assert forall|i: int| 0 <= i < p.len() implies element_wf(#[trigger] p[i].1) by {
                assert(p[i] == c[i]);
            }
        }
        if children_wf(c) {
            assert forall|i: int| 0 <= i < c.len() implies element_wf(#[trigger] c[i].1) by {
                if i < c.len() - 1 {
                    assert(p[i] == c[i]);
                }
            }
        }
    }
}

// ---------------------------------------------------------------------------
// Finding and inserting names

/// The position of the child named `k`, if there is one.
pub open spec fn key_index(c: Seq<(Seq<char>, ElementModel)>, k: Seq<char>) -> Option<int> {
    if exists|i: int| 0 <= i < c.len() && #[trigger] c[i].0 == k {
        Some(choose|i: int| 0 <= i < c.len() && #[trigger] c[i].0 == k)
    } else {
        None
    }
}

/// `p` is where `k` goes to keep the names in order.
pub open spec fn is_insert_pos(c: Seq<(Seq<char>, ElementModel)>, k: Seq<char>, p: int) -> bool {
    &&& 0 <= p <= c.len()
    &&& forall|i: int| 0 <= i < p ==> key_lt(#[trigger] c[i].0, k)
    &&& forall|i: int| p <= i < c.len() ==> !key_lt(#[trigger] c[i].0, k)
}

pub open spec fn insert_pos(c: Seq<(Seq<char>, ElementModel)>, k: Seq<char>) -> int {
    choose|p: int| is_insert_pos(c, k, p)
}

pub proof fn lemma_key_index(c: Seq<(Seq<char>, ElementModel)>, k: Seq<char>, idx: int)
    requires
        sorted_keys(c),
        0 <= idx < c.len(),
        c[idx].0 == k,
    ensures
        key_index(c, k) == Some(idx),
{
    assert(exists|i: int| 0 <= i < c.len() && #[trigger] c[i].0 == k) by {
        assert(c[idx].0 == k);
    }
    let j = key_index(c, k)->0;
    assert(0 <= j < c.len() && c[j].0 == k);
    if j < idx {
        assert(key_lt(c[j].0, c[idx].0));
        lemma_key_lt_irreflexive(k);
    } else if idx < j {
        assert(key_lt(c[idx].0, c[j].0));
        lemma_key_lt_irreflexive(k);
    }
}

pub proof fn lemma_insert_pos(c: Seq<(Seq<char>, ElementModel)>, k: Seq<char>, p: int)
    requires
        is_insert_pos(c, k, p),
    ensures
        insert_pos(c, k) == p,
{
    let q = insert_pos(c, k);
    assert(is_insert_pos(c, k, q));
    if q < p {
        assert(key_lt(c[q].0, k));
    } else if p < q {
        assert(key_lt(c[p].0, k));
    }
}

/// Inserting a new name at its position keeps the names in order, and an
/// element in order keeps every nested scope in order.
pub proof fn lemma_insert_sorted(c: Seq<(Seq<char>, ElementModel)>, k: Seq<char>, e: ElementModel, p: int)
    requires
        sorted_keys(c),
        children_wf(c),
        element_wf(e),
        is_insert_pos(c, k, p),
        key_index(c, k) is None,
    ensures
        sorted_keys(c.insert(p, (k, e))),
        children_wf(c.insert(p, (k, e))),
{
    let d = c.insert(p, (k, e));
    assert forall|i: int, j: int| 0 <= i < j < d.len() implies key_lt(#[trigger] d[i].0, #[trigger] d[j].0) by {
        if j == p {
            assert(key_lt(c[i].0, k));
        } else if i == p {
            let cj = c[j - 1].0;
            assert(!key_lt(cj, k));
            if cj == k {
                assert(c[j - 1].0 == k);
            }
            lemma_key_lt_total(cj, k);
        } else if i < p && j > p {
            assert(key_lt(c[i].0, k));
            let cj = c[j - 1].0;
            assert(!key_lt(cj, k));
            if cj == k {
                assert(c[j - 1].0 == k);
            }
            lemma_key_lt_total(cj, k);
            lemma_key_lt_transitive(c[i].0, k, cj);
        } else if i < p {
            assert(key_lt(c[i].0, c[j].0));
        } else {
            assert(key_lt(c[i - 1].0, c[j - 1].0));
        }
    }
    lemma_children_wf(c);
    lemma_children_wf(d);
    assert forall|i: int| 0 <= i < d.len() implies element_wf(#[trigger] d[i].1) by {
        if i < p {
            assert(d[i] == c[i]);
        } else if i > p {
            assert(d[i] == c[i - 1]);
        }
    }
}

/// Replacing the element of an existing name keeps the names in order.
pub proof fn lemma_update_sorted(c: Seq<(Seq<char>, ElementModel)>, i: int, e: ElementModel)
    requires
        sorted_keys(c),
        children_wf(c),
        element_wf(e),
        0 <= i < c.len(),
    ensures
        sorted_keys(c.update(i, (c[i].0, e))),
        children_wf(c.update(i, (c[i].0, e))),
{
    let d = c.update(i, (c[i].0, e));
    assert forall|a: int, b: int| 0 <= a < b < d.len() implies key_lt(#[trigger] d[a].0, #[trigger] d[b].0) by {
        assert(key_lt(c[a].0, c[b].0));
    }
    lemma_children_wf(c);
    lemma_children_wf(d);
    assert forall|j: int| 0 <= j < d.len() implies element_wf(#[trigger] d[j].1) by {
        if j != i {
            assert(d[j] == c[j]);
        }
    }
}

// ---------------------------------------------------------------------------
// Adding elements to one scope

/// A name that can be a direct child: four characters, not starting with `\`.
pub open spec fn valid_segment(k: Seq<char>) -> bool {
    !(k.len() > 0 && k[0] == '\\') && k.len() == 4
}

/// The kind of two scopes of one name merged: a device wins, as it is the
/// more special kind of scope.
pub open spec fn merged_kind(a: ScopeType, b: ScopeType) -> ScopeType {
    if a is Device || b is Device {
        ScopeType::Device
    } else {
        a
    }
}

/// Adding the element `e` under the name `k` directly to the scope `s`.
///
/// A new name is inserted in order. An existing name takes the new element
/// in only for scopes (merged), region fields (one region at most, fields
/// appended) and unknown elements (appended); anything else fails.
pub open spec fn add_immediate_model(s: ScopeModel, k: Seq<char>, e: ElementModel) -> Option<ScopeModel>
    decreases e,
{
    if !valid_segment(k) {
        None
    } else {
        match key_index(s.children, k) {
            None => Some(
                ScopeModel {
                    ty: s.ty,
                    children: s.children.insert(insert_pos(s.children, k), (k, e)),
                },
            ),
            Some(i) => match (s.children[i].1, e) {
                (ElementModel::ScopeOrDevice(old), ElementModel::ScopeOrDevice(new)) => {
                    match merge_model(old, new.children) {
                        Some(m) => Some(
                            ScopeModel {
                                ty: s.ty,
                                children: s.children.update(
                                    i,
                                    (k, ElementModel::ScopeOrDevice(ScopeModel { ty: merged_kind(old.ty, new.ty), ..m })),
                                ),
                            },
                        ),
                        None => None,
                    }
                },
                (ElementModel::RegionFields(r, f), ElementModel::RegionFields(nr, nf)) => {
                    if r is Some && nr is Some {
                        None
                    } else {
                        Some(
                            ScopeModel {
                                ty: s.ty,
                                children: s.children.update(
                                    i,
                                    (
                                        k,
                                        ElementModel::RegionFields(
                                            if r is Some {
                                                r
                                            } else {
                                                nr
                                            },
                                            f + nf,
                                        ),
                                    ),
                                ),
                            },
                        )
                    }
                },
                (ElementModel::UnknownElements(a), ElementModel::UnknownElements(b)) => Some(
                    ScopeModel {
                        ty: s.ty,
                        children: s.children.update(i, (k, ElementModel::UnknownElements(a + b))),
                    },
                ),
                _ => None,
            },
        }
    }
}

/// Adding the children `other`, in order, to the scope `s`.
pub open spec fn merge_model(s: ScopeModel, other: Seq<(Seq<char>, ElementModel)>) -> Option<ScopeModel>
    decreases other,
{
    if other.len() == 0 {
        Some(s)
    } else {
        match add_immediate_model(s, other[0].0, other[0].1) {
            Some(s2) => merge_model(s2, other.subrange(1, other.len() as int)),
            None => None,
        }
    }
}

/// Merging children into a scope keeps the scope's kind.
pub proof fn lemma_merge_keeps_kind(s: ScopeModel, other: Seq<(Seq<char>, ElementModel)>)
    requires
        merge_model(s, other) is Some,
    ensures
        merge_model(s, other)->0.ty == s.ty,
    decreases other,
{
    if other.len() > 0 {
        let s2 = add_immediate_model(s, other[0].0, other[0].1)->0;
        lemma_merge_keeps_kind(s2, other.subrange(1, other.len() as int));
    }
}

pub proof fn lemma_children_model_insert(v: Seq<(String, ElementType)>, p: int, x: (String, ElementType))
    requires
        0 <= p <= v.len(),
    ensures
        children_model(v.insert(p, x)) == children_model(v).insert(p, (x.0@, element_model(x.1))),
{
    lemma_children_model(v);
    lemma_children_model(v.insert(p, x));
    assert(children_model(v.insert(p, x)) =~= children_model(v).insert(p, (x.0@, element_model(x.1))));
}

pub proof fn lemma_children_model_update(v: Seq<(String, ElementType)>, p: int, x: (String, ElementType))
    requires
        0 <= p < v.len(),
    ensures
        children_model(v.update(p, x)) == children_model(v).update(p, (x.0@, element_model(x.1))),
{
    lemma_children_model(v);
    lemma_children_model(v.update(p, x));
    assert(children_model(v.update(p, x)) =~= children_model(v).update(p, (x.0@, element_model(x.1))));
}

impl Scope {
    /// An empty scope of the given kind.
    pub fn new(ty: ScopeType) -> (r: Scope)
        ensures
            scope_model(r) == (ScopeModel { ty, children: Seq::empty() }),
            scope_wf(scope_model(r)),
    {
        let r = Scope { ty, children: Vec::new() };
        proof {
            assert(children_model(r.children@) =~= Seq::empty());
        }
        r
    }

    /// Where the child named `name` is: `Ok` with its position, or `Err`
    /// with the position where that name would be inserted.
    fn locate(&self, name: &str) -> (r: Result<usize, usize>)
        requires
            sorted_keys(scope_model(*self).children),
        ensures
            match r {
                Ok(i) => key_index(scope_model(*self).children, name@) == Some(i as int),
                Err(p) => key_index(scope_model(*self).children, name@) is None && is_insert_pos(
                    scope_model(*self).children,
                    name@,
                    p as int,
                ) && insert_pos(scope_model(*self).children, name@) == p as int,
            },
    {
        let ghost c = scope_model(*self).children;
        proof {
            lemma_children_model(self.children@);
        }
        let mut i: usize = 0;
        while i < self.children.len() && str_lt(self.children[i].0.as_str(), name)
            invariant
                c == scope_model(*self).children,
                c.len() == self.children@.len(),
                forall|j: int| 0 <= j < c.len() ==> #[trigger] c[j] == (
                    self.children@[j].0@,
                    element_model(self.children@[j].1),
                ),
                i <= c.len(),
                forall|j: int| 0 <= j < i ==> key_lt(#[trigger] c[j].0, name@),
                sorted_keys(c),
            decreases c.len() - i,
        {
            assert(c[i as int].0 == self.children@[i as int].0@);
            i = i + 1;
        }
        if i < self.children.len() && crate::text::str_eq(self.children[i].0.as_str(), name) {
            proof {
                assert(c[i as int].0 == name@);
                lemma_key_index(c, name@, i as int);
            }
            return Ok(i);
        }
        proof {
            assert(i < c.len() ==> c[i as int].0 != name@ && !key_lt(c[i as int].0, name@));
            if i < c.len() {
                lemma_key_lt_total(c[i as int].0, name@);
            }
            assert forall|j: int| i <= j < c.len() implies !key_lt(#[trigger] c[j].0, name@) && c[j].0 != name@ by {
                if j > i {
                    assert(key_lt(c[i as int].0, c[j].0));
                    lemma_key_lt_transitive(name@, c[i as int].0, c[j].0);
                    lemma_key_lt_asymmetric(name@, c[j].0);
                }
            }
            assert forall|j: int| 0 <= j < i implies #[trigger] c[j].0 != name@ by {
                lemma_key_lt_asymmetric(c[j].0, name@);
            }
            assert(!exists|j: int| 0 <= j < c.len() && #[trigger] c[j].0 == name@);
            lemma_insert_pos(c, name@, i as int);
        }
        Err(i)
    }

    /// Adds `element` under `name` directly to this scope, as
    /// `add_immediate_model` says. On an error the scope may have been
    /// partly changed.
    pub fn add_immediate_child(&mut self, name: &str, element: ElementType) -> (r: Result<(), StructuredAmlError>)
        requires
            scope_wf(scope_model(*old(self))),
            element_wf(element_model(element)),
        ensures
            r is Ok <==> add_immediate_model(scope_model(*old(self)), name@, element_model(element)) is Some,
            r is Ok ==> add_immediate_model(scope_model(*old(self)), name@, element_model(element))
                == Some(scope_model(*final(self))) && scope_wf(scope_model(*final(self))),
            r matches Err(e) ==> e matches StructuredAmlError::MalformedScope(n) && n@ == name@,
        decreases element,
    {
        let ghost s0 = scope_model(*self);
        let ghost e0 = element_model(element);
        let n = char_len(name);
        if n != 4 || char_at(name, 0) == '\\' {
            return Err(StructuredAmlError::MalformedScope(string_from(name)));
        }
        assert(valid_segment(name@));
        proof {
            lemma_children_model(self.children@);
        }
        match self.locate(name) {
            Err(p) => {
                let key = string_from(name);
                proof {
                    lemma_children_model_insert(self.children@, p as int, (key, element));
                    lemma_insert_sorted(s0.children, name@, e0, p as int);
                }
                self.children.insert(p, (key, element));
                Ok(())
            },
            Ok(i) => {
                let ghost v0 = self.children@;
                proof {
                    lemma_children_model(v0);
                    lemma_children_wf(s0.children);
                    assert(s0.children[i as int].0 == name@);
                }
                let (key, existing) = self.children.remove(i);
                assert(key@ == name@);
                match (existing, element) {
                    (ElementType::ScopeOrDevice(mut scope), ElementType::ScopeOrDevice(new_scope)) => {
                        proof {
                            assert(element_wf(s0.children[i as int].1));
                        }
                        let new_is_device = match new_scope.ty {
                            ScopeType::Device => true,
                            _ => false,
                        };
                        let ghost old_scope = scope_model(scope);
                        let ghost new_model = scope_model(new_scope);
                        let res = scope.merge(new_scope);
                        match res {
                            Ok(()) => {},
                            Err(e) => {
                                return Err(StructuredAmlError::MalformedScope(string_from(name)));
                            },
                        }
                        // a device always wins: it is the more special kind of scope
                        proof {
                            lemma_merge_keeps_kind(old_scope, new_model.children);
                        }
                        if new_is_device {
                            scope.ty = ScopeType::Device;
                        }
                        assert(scope_model(scope) == ScopeModel {
                            ty: merged_kind(old_scope.ty, new_model.ty),
                            ..merge_model(old_scope, new_model.children)->0
                        });
                        let ghost x = (key, ElementType::ScopeOrDevice(scope));
                        proof {
                            assert(self.children@.insert(i as int, x) =~= v0.update(i as int, x));
                            lemma_children_model_update(v0, i as int, x);
                            lemma_update_sorted(s0.children, i as int, element_model(x.1));
                        }
                        self.children.insert(i, (key, ElementType::ScopeOrDevice(scope)));
                        Ok(())
                    },
                    (ElementType::RegionFields(region, mut fields), ElementType::RegionFields(new_region, mut new_fields)) => {
                        if region.is_some() && new_region.is_some() {
                            return Err(StructuredAmlError::MalformedScope(string_from(name)));
                        }
                        let ghost f0 = fields@;
                        let ghost nf0 = new_fields@;
                        let merged_region = if region.is_some() {
                            region
                        } else {
                            new_region
                        };
                        fields.append(&mut new_fields);
                        let ghost x = (key, ElementType::RegionFields(merged_region, fields));
                        proof {
                            assert(fields_model(fields@) =~= fields_model(f0) + fields_model(nf0));
                            assert(self.children@.insert(i as int, x) =~= v0.update(i as int, x));
                            lemma_children_model_update(v0, i as int, x);
                            lemma_update_sorted(s0.children, i as int, element_model(x.1));
                        }
                        self.children.insert(i, (key, ElementType::RegionFields(merged_region, fields)));
                        Ok(())
                    },
                    (ElementType::UnknownElements(mut elements), ElementType::UnknownElements(mut new_elements)) => {
                        let ghost a0 = elements@;
                        let ghost b0 = new_elements@;
                        elements.append(&mut new_elements);
                        let ghost x = (key, ElementType::UnknownElements(elements));
                        proof {
                            assert(elements@ =~= a0 + b0);
                            assert(self.children@.insert(i as int, x) =~= v0.update(i as int, x));
                            lemma_children_model_update(v0, i as int, x);
                            lemma_update_sorted(s0.children, i as int, element_model(x.1));
                        }
                        self.children.insert(i, (key, ElementType::UnknownElements(elements)));
                        Ok(())
                    },
                    _ => Err(StructuredAmlError::MalformedScope(string_from(name))),
                }
            },
        }
    }

    /// Adds the children of `other`, in order, to this scope, as
    /// `merge_model` says. The kind of `other` is not used.
    pub fn merge(&mut self, other: Scope) -> (r: Result<(), StructuredAmlError>)
        requires
            scope_wf(scope_model(*old(self))),
            scope_wf(scope_model(other)),
        ensures
            r is Ok <==> merge_model(scope_model(*old(self)), scope_model(other).children) is Some,
            r is Ok ==> merge_model(scope_model(*old(self)), scope_model(other).children)
                == Some(scope_model(*final(self))) && scope_wf(scope_model(*final(self))),
        decreases other,
    {
        let ghost oc = scope_model(other).children;
        let ghost m0 = scope_model(*self);
        let ghost ov = other.children@;
        let ghost n = oc.len() as int;
        proof {
            lemma_children_model(ov);
            lemma_children_wf(oc);
            assert(oc.subrange(0, n) =~= oc);
        }
        let mut rest = other.children;
        let ghost mut k: int = 0;
        while rest.len() > 0
            invariant
                0 <= k <= n,
                n == oc.len(),
                n == ov.len(),
                ov == other.children@,
                oc == scope_model(other).children,
                rest@ == ov.subrange(k, n),
                forall|j: int| 0 <= j < n ==> #[trigger] oc[j] == (ov[j].0@, element_model(ov[j].1)),
                forall|j: int| 0 <= j < n ==> element_wf(#[trigger] oc[j].1),
                merge_model(m0, oc) == merge_model(scope_model(*self), oc.subrange(k, n)),
                scope_wf(scope_model(*self)),
                m0 == scope_model(*old(self)),
            decreases rest.len(),
        {
            assert(rest@[0] == ov[k]);
            let (name, el) = rest.remove(0);
            proof {
                assert(element_wf(oc[k].1));
                assert(decreases_to!(other => other.children));
                assert(decreases_to!(other.children => other.children@));
                assert(decreases_to!(other.children@ => other.children@[k]));
                assert(decreases_to!(other.children@[k] => el));
                assert(oc.subrange(k, n)[0] == oc[k]);
                assert(oc.subrange(k, n).subrange(1, n - k) =~= oc.subrange(k + 1, n));
                assert(rest@ =~= ov.subrange(k + 1, n));
            }
            let ghost before = scope_model(*self);
            let res = self.add_immediate_child(name.as_str(), el);
            match res {
                Ok(()) => {},
                Err(e) => {
                    assert(add_immediate_model(before, oc[k].0, oc[k].1) is None);
                    assert(merge_model(before, oc.subrange(k, n)) is None);
                    return Err(e);
                },
            }
            proof {
                k = k + 1;
            }
        }
        assert(oc.subrange(n, n).len() == 0);
        Ok(())
    }
}

// ---------------------------------------------------------------------------
// Adding elements along a path

/// The element with its name (and the names of a region's fields) set to `n`.
pub open spec fn renamed(e: ElementModel, n: Seq<char>) -> ElementModel {
    match e {
        ElementModel::Method(_, f, t) => ElementModel::Method(n, f, t),
        ElementModel::Processor(_, a, b, c, t) => ElementModel::Processor(n, a, b, c, t),
        ElementModel::PowerResource(_, a, b, t) => ElementModel::PowerResource(n, a, b, t),
        ElementModel::RegionFields(r, f) => ElementModel::RegionFields(
            match r {
                Some(x) => Some((n, x.1, x.2, x.3)),
                None => None,
            },
            Seq::new(f.len(), |i: int| (n, f[i].1, f[i].2, f[i].3, f[i].4)),
        ),
        ElementModel::IndexField(_, i, a, l, u, f) => ElementModel::IndexField(n, i, a, l, u, f),
        _ => e,
    }
}

/// Adding `e` at the dotted path `path` below the scope `s`: every path
/// segment but the last names a scope, which is created empty where it is
/// missing; the element is renamed to the path that remains at each level.
pub open spec fn add_child_model(s: ScopeModel, path: Seq<char>, e: ElementModel) -> Option<ScopeModel>
    decreases path.len(),
{
    if path.len() > 0 && path[0] == '\\' {
        None
    } else {
        let e2 = renamed(e, path);
        match index_from(path, '.', 0) {
            None => add_immediate_model(s, path, e2),
            Some(p) => if 0 <= p < path.len() {
                let first = path.subrange(0, p);
                let rest = path.subrange(p + 1, path.len() as int);
                let c1 = match key_index(s.children, first) {
                    Some(i) => s.children,
                    None => s.children.insert(
                        insert_pos(s.children, first),
                        (
                            first,
                            ElementModel::ScopeOrDevice(
                                ScopeModel { ty: ScopeType::Scope, children: Seq::empty() },
                            ),
                        ),
                    ),
                };
                let i = match key_index(s.children, first) {
                    Some(i) => i,
                    None => insert_pos(s.children, first),
                };
                match c1[i].1 {
                    ElementModel::ScopeOrDevice(inner) => match add_child_model(inner, rest, e2) {
                        Some(inner2) => Some(
                            ScopeModel {
                                ty: s.ty,
                                children: c1.update(i, (first, ElementModel::ScopeOrDevice(inner2))),
                            },
                        ),
                        None => None,
                    },
                    _ => None,
                }
            } else {
                None
            },
        }
    }
}

/// Errors of a lookup, by the model.
pub enum FindError {
    InvalidName(Seq<char>),
    PartOfPathNotScope(Seq<char>),
}

/// Looking up the dotted path `name` below the scope `s`.
pub open spec fn find_model(s: ScopeModel, name: Seq<char>) -> Result<Option<ElementModel>, FindError>
    decreases name.len(),
{
    match index_from(name, '.', 0) {
        Some(p) => if 0 <= p < name.len() {
            let first = name.subrange(0, p);
            let rest = name.subrange(p + 1, name.len() as int);
            if first.len() != 4 {
                Err(FindError::InvalidName(first))
            } else {
                match key_index(s.children, first) {
                    None => Ok(None),
                    Some(i) => match s.children[i].1 {
                        ElementModel::ScopeOrDevice(inner) => find_model(inner, rest),
                        _ => Err(FindError::PartOfPathNotScope(first)),
                    },
                }
            }
        } else {
            Ok(None)
        },
        None => if name.len() != 4 {
            Err(FindError::InvalidName(name))
        } else {
            match key_index(s.children, name) {
                None => Ok(None),
                Some(i) => Ok(Some(s.children[i].1)),
            }
        },
    }
}

/// The element with its name set to `name`, as `renamed` says.
pub fn rename(element: ElementType, name: &str) -> (r: ElementType)
    ensures
        element_model(r) == renamed(element_model(element), name@),
        element_wf(element_model(element)) ==> element_wf(element_model(r)),
{
    match element {
        ElementType::Method(m) => ElementType::Method(
            MethodObj { name: string_from(name), flags: m.flags, term_list: m.term_list },
        ),
        ElementType::Processor(p) => ElementType::Processor(
            ProcessorDeprecated {
                name: string_from(name),
                unk1: p.unk1,
                unk2: p.unk2,
                unk3: p.unk3,
                term_list: p.term_list,
            },
        ),
        ElementType::PowerResource(p) => ElementType::PowerResource(
            PowerResource {
                name: string_from(name),
                system_level: p.system_level,
                resource_order: p.resource_order,
                term_list: p.term_list,
            },
        ),
        ElementType::RegionFields(region, fields) => {
            let ghost f0 = fields_model(fields@);
            let new_region = match region {
                Some(x) => Some(
                    RegionObj {
                        name: string_from(name),
                        region_space: x.region_space,
                        region_offset: x.region_offset,
                        region_length: x.region_length,
                    },
                ),
                None => None,
            };
            let new_fields = rename_fields(fields, name);
            let r = ElementType::RegionFields(new_region, new_fields);
            proof {
                assert(fields_model(new_fields@) =~= Seq::new(
                    f0.len(),
                    |i: int| (name@, f0[i].1, f0[i].2, f0[i].3, f0[i].4),
                ));
            }
            r
        },
        ElementType::IndexField(f) => ElementType::IndexField(
            IndexFieldDef {
                name: string_from(name),
                index_name: f.index_name,
                access_type: f.access_type,
                need_lock: f.need_lock,
                update_rule: f.update_rule,
                fields: f.fields,
            },
        ),
        other => other,
    }
}

/// The field definitions with their names set to `name`.
fn rename_fields(fields: Vec<FieldDef>, name: &str) -> (r: Vec<FieldDef>)
    ensures
        r@.len() == fields@.len(),
        forall|i: int| 0 <= i < r@.len() ==> #[trigger] field_model(r@[i]) == (
            name@,
            fields@[i].access_type,
            fields@[i].need_lock,
            fields@[i].update_rule,
            fields@[i].fields@,
        ),
{
    let ghost f0 = fields@;
    let mut rest = fields;
    let mut out: Vec<FieldDef> = Vec::new();
    while rest.len() > 0
        invariant
            out@.len() + rest@.len() == f0.len(),
            rest@ == f0.subrange(out@.len() as int, f0.len() as int),
            forall|i: int| 0 <= i < out@.len() ==> #[trigger] field_model(out@[i]) == (
                name@,
                f0[i].access_type,
                f0[i].need_lock,
                f0[i].update_rule,
                f0[i].fields@,
            ),
        decreases rest@.len(),
    {
        let ghost k = out@.len() as int;
        assert(rest@[0] == f0[k]);
        let f = rest.remove(0);
        out.push(
            FieldDef {
                name: string_from(name),
                access_type: f.access_type,
                need_lock: f.need_lock,
                update_rule: f.update_rule,
                fields: f.fields,
            },
        );
        assert(rest@ =~= f0.subrange(k + 1, f0.len() as int));
    }
    out
}

impl Scope {
    /// Adds `element` at the dotted path `name` below this scope, as
    /// `add_child_model` says. On an error the scope may have been partly
    /// changed.
    pub fn add_child(&mut self, name: &str, element: ElementType) -> (r: Result<(), StructuredAmlError>)
        requires
            scope_wf(scope_model(*old(self))),
            element_wf(element_model(element)),
        ensures
            r is Ok <==> add_child_model(scope_model(*old(self)), name@, element_model(element)) is Some,
            r is Ok ==> add_child_model(scope_model(*old(self)), name@, element_model(element))
                == Some(scope_model(*final(self))) && scope_wf(scope_model(*final(self))),
            r matches Err(e) ==> e is MalformedScope,
        decreases name@.len(),
    {
        let ghost s0 = scope_model(*self);
        let n = char_len(name);
        if n > 0 && char_at(name, 0) == '\\' {
            return Err(StructuredAmlError::MalformedScope(string_from(name)));
        }
        let element = rename(element, name);
        let ghost e2 = element_model(element);
        proof {
            lemma_index_from(name@, '.', 0);
            lemma_children_model(self.children@);
            lemma_children_wf(s0.children);
        }
        match find_char(name, '.') {
            None => self.add_immediate_child(name, element),
            Some(p) => {
                let first = substring(name, 0, p);
                let rest = substring(name, p + 1, n);
                let ghost v0 = self.children@;
                let (i, key, child) = match self.locate(first.as_str()) {
                    Ok(i) => {
                        proof {
                            assert(v0[i as int].0@ == first@);
                        }
                        let (key, child) = self.children.remove(i);
                        (i, key, child)
                    },
                    Err(q) => (q, first, ElementType::ScopeOrDevice(Scope::new(ScopeType::Scope))),
                };
                proof {
                    assert(key@ == first@);
                    assert(element_wf(element_model(child)));
                }
                match child {
                    ElementType::ScopeOrDevice(mut inner) => {
                        let res = inner.add_child(rest.as_str(), element);
                        match res {
                            Ok(()) => {},
                            Err(e) => {
                                return Err(e);
                            },
                        }
                        let ghost x = (key, ElementType::ScopeOrDevice(inner));
                        proof {
                            match key_index(s0.children, first@) {
                                Some(_) => {
                                    assert(self.children@.insert(i as int, x) =~= v0.update(i as int, x));
                                    lemma_children_model_update(v0, i as int, x);
                                    lemma_update_sorted(s0.children, i as int, element_model(x.1));
                                },
                                None => {
                                    lemma_children_model_insert(v0, i as int, x);
                                    lemma_insert_sorted(s0.children, first@, element_model(x.1), i as int);
                                    let empty = ElementModel::ScopeOrDevice(
                                        ScopeModel { ty: ScopeType::Scope, children: Seq::empty() },
                                    );
                                    assert(s0.children.insert(i as int, (first@, empty)).update(
                                        i as int,
                                        (first@, element_model(x.1)),
                                    ) =~= s0.children.insert(i as int, (first@, element_model(x.1))));
                                },
                            }
                        }
                        self.children.insert(i, (key, ElementType::ScopeOrDevice(inner)));
                        Ok(())
                    },
                    _ => Err(StructuredAmlError::MalformedScope(string_from(name))),
                }
            },
        }
    }

    /// Looks up the dotted path `name` below this scope, as `find_model`
    /// says.
    pub fn find_object(&self, name: &str) -> (r: Result<Option<&ElementType>, StructuredAmlError>)
        requires
            scope_wf(scope_model(*self)),
        ensures
            match (r, find_model(scope_model(*self), name@)) {
                (Ok(None), Ok(None)) => true,
                (Ok(Some(e)), Ok(Some(m))) => element_model(*e) == m,
                (Err(StructuredAmlError::InvalidName(x)), Err(FindError::InvalidName(y))) => x@ == y,
                (
                    Err(StructuredAmlError::PartOfPathNotScope(x)),
                    Err(FindError::PartOfPathNotScope(y)),
                ) => x@ == y,
                _ => false,
            },
        decreases name@.len(),
    {
        let ghost s0 = scope_model(*self);
        let n = char_len(name);
        proof {
            lemma_index_from(name@, '.', 0);
            lemma_children_model(self.children@);
            lemma_children_wf(s0.children);
        }
        match find_char(name, '.') {
            Some(p) => {
                let first = substring(name, 0, p);
                if char_len(first.as_str()) != 4 {
                    return Err(StructuredAmlError::InvalidName(first));
                }
                let rest = substring(name, p + 1, n);
                match self.locate(first.as_str()) {
                    Err(_) => Ok(None),
                    Ok(i) => match &self.children[i].1 {
                        ElementType::ScopeOrDevice(scope) => {
                            proof {
                                assert(s0.children[i as int].1 == element_model(self.children@[i as int].1));
                                assert(element_wf(s0.children[i as int].1));
                            }
                            scope.find_object(rest.as_str())
                        },
                        _ => Err(StructuredAmlError::PartOfPathNotScope(first)),
                    },
                }
            },
            None => {
                if n != 4 {
                    return Err(StructuredAmlError::InvalidName(string_from(name)));
                }
                match self.locate(name) {
                    Err(_) => Ok(None),
                    Ok(i) => Ok(Some(&self.children[i].1)),
                }
            },
        }
    }
}

// ---------------------------------------------------------------------------
// Building the tree from terms

/// Adding `e` under `name`, seen from the scope at path `cur` that is being
/// built (`this`), with `root` the scope `\`: an absolute name goes below
/// the root (`\` alone merges a scope into the root), a name starting with
/// `^` goes below the parent of `cur`, any other name below `this`.
/// The result is the new `this` and the new root.
pub open spec fn handle_add_model(
    cur: Seq<char>,
    this: ScopeModel,
    root: ScopeModel,
    name: Seq<char>,
    e: ElementModel,
) -> Option<(ScopeModel, ScopeModel)>
    decreases name.len(),
{
    if name.len() > 0 && name[0] == '\\' {
        let rest = name.drop_first();
        if rest.len() == 0 {
            match e {
                ElementModel::ScopeOrDevice(sc) => match merge_model(root, sc.children) {
                    Some(r2) => Some((this, r2)),
                    None => None,
                },
                _ => None,
            }
        } else {
            match add_child_model(root, rest, e) {
                Some(r2) => Some((this, r2)),
                None => None,
            }
        }
    } else if name.len() > 0 && name[0] == '^' {
        let rest = name.drop_first();
        if rest.len() == 0 {
            None
        } else {
            match rindex_from(cur, '.', cur.len() - 1) {
                None => None,
                Some(p) => {
                    let parent = cur.subrange(0, p);
                    if !(0 <= p && parent.len() > 0 && parent[0] == '\\') {
                        None
                    } else if rest[0] == '^' {
                        handle_add_model(parent, this, root, rest, e)
                    } else {
                        match add_child_model(root, trim_backslashes(parent + seq!['.'] + rest), e) {
                            Some(r2) => Some((this, r2)),
                            None => None,
                        }
                    }
                },
            }
        }
    } else {
        match add_child_model(this, name, e) {
            Some(t2) => Some((t2, root)),
            None => None,
        }
    }
}

/// The path of a scope named `name` declared in the scope at path `cur`.
pub open spec fn scope_path(cur: Seq<char>, name: Seq<char>) -> Seq<char> {
    if name.len() > 0 && name[0] == '\\' {
        name
    } else {
        cur + (if cur.len() > 0 && cur[cur.len() - 1] == '\\' {
            Seq::empty()
        } else {
            seq!['.']
        }) + name
    }
}

/// The name under which terms that are not declarations are kept.
pub open spec fn unknown_name() -> Seq<char> {
    seq!['\\', 'U', 'N', 'K', 'W']
}

pub open spec fn empty_scope(ty: ScopeType) -> ScopeModel {
    ScopeModel { ty, children: Seq::empty() }
}

/// Building from the terms `terms[k..]`, in order.
pub open spec fn parse_terms_model(
    terms: Seq<AmlTerm>,
    k: int,
    this: ScopeModel,
    root: ScopeModel,
    cur: Seq<char>,
) -> Option<(ScopeModel, ScopeModel)>
    decreases terms, terms.len() - k,
{
    if k < 0 || k >= terms.len() {
        Some((this, root))
    } else {
        match parse_term_model(terms[k], this, root, cur) {
            Some((t2, r2)) => parse_terms_model(terms, k + 1, t2, r2, cur),
            None => None,
        }
    }
}

/// Building from one term: declarations become elements; any other term is
/// kept among the unknown elements.
pub open spec fn parse_term_model(t: AmlTerm, this: ScopeModel, root: ScopeModel, cur: Seq<char>) -> Option<(ScopeModel, ScopeModel)>
    decreases t, 0int,
{
    match t {
        AmlTerm::Scope(sc) => match parse_terms_model(
            sc.term_list@,
            0,
            empty_scope(ScopeType::Scope),
            root,
            scope_path(cur, sc.name@),
        ) {
            Some((inner, r2)) => handle_add_model(cur, this, r2, sc.name@, ElementModel::ScopeOrDevice(inner)),
            None => None,
        },
        AmlTerm::Device(sc) => match parse_terms_model(
            sc.term_list@,
            0,
            empty_scope(ScopeType::Device),
            root,
            scope_path(cur, sc.name@),
        ) {
            Some((inner, r2)) => handle_add_model(cur, this, r2, sc.name@, ElementModel::ScopeOrDevice(inner)),
            None => None,
        },
        AmlTerm::Region(r) => handle_add_model(
            cur,
            this,
            root,
            r.name@,
            ElementModel::RegionFields(Some(region_model(r)), Seq::empty()),
        ),
        AmlTerm::Field(f) => handle_add_model(
            cur,
            this,
            root,
            f.name@,
            ElementModel::RegionFields(None, seq![field_model(f)]),
        ),
        AmlTerm::IndexField(f) => handle_add_model(cur, this, root, f.name@, element_model(ElementType::IndexField(f))),
        AmlTerm::Processor(p) => handle_add_model(cur, this, root, p.name@, element_model(ElementType::Processor(p))),
        AmlTerm::PowerResource(p) => handle_add_model(cur, this, root, p.name@, element_model(ElementType::PowerResource(p))),
        AmlTerm::Method(m) => handle_add_model(cur, this, root, m.name@, element_model(ElementType::Method(m))),
        AmlTerm::NameObj(n, o) => handle_add_model(cur, this, root, n@, ElementModel::Name(o)),
        _ => handle_add_model(cur, this, root, unknown_name(), ElementModel::UnknownElements(seq![t])),
    }
}

/// The root scope built from the terms of a whole code: the terms are
/// built as the scope `\`, which is then merged into the root.
pub open spec fn structure_model(terms: Seq<AmlTerm>) -> Option<ScopeModel> {
    match parse_terms_model(terms, 0, empty_scope(ScopeType::Scope), empty_scope(ScopeType::Scope), seq!['\\']) {
        Some((this, root)) => merge_model(root, this.children),
        None => None,
    }
}

/// Every entry of `c` under the name that keeps unknown elements holds
/// unknown elements.
pub open spec fn unknown_entries_only(c: Seq<(Seq<char>, ElementModel)>) -> bool {
    forall|j: int| 0 <= j < c.len() && #[trigger] c[j].0 == unknown_name().drop_first() ==> c[j].1 is UnknownElements
}

/// A term that declares nothing: building keeps it among the unknown
/// elements.
pub open spec fn declares_nothing(t: AmlTerm) -> bool {
    !(t is Scope || t is Device || t is Region || t is Field || t is IndexField || t is Processor
        || t is PowerResource || t is Method || t is NameObj)
}

/// Terms that declare nothing keep the current scope as it is and never
/// make building fail.
pub proof fn lemma_control_terms_build(terms: Seq<AmlTerm>, k: int, this: ScopeModel, root: ScopeModel, cur: Seq<char>)
    requires
        0 <= k,
        forall|i: int| k <= i < terms.len() ==> declares_nothing(#[trigger] terms[i]),
        sorted_keys(root.children),
        children_wf(root.children),
        unknown_entries_only(root.children),
    ensures
        parse_terms_model(terms, k, this, root, cur) matches Some((t2, r2)) && t2 == this,
    decreases terms.len() - k,
{
    if k < terms.len() {
        let t = terms[k];
        assert(declares_nothing(t));
        let name = unknown_name().drop_first();
        assert(name =~= seq!['U', 'N', 'K', 'W']);
        lemma_index_from(name, '.', 0);
        assert(index_from(name, '.', 0) is None);
        let e = ElementModel::UnknownElements(seq![t]);
        assert(renamed(e, name) == e);
        assert(valid_segment(name));
        let c = root.children;
        let r2 = match key_index(c, name) {
            None => {
                lemma_insert_exists(c, name);
                let p = insert_pos(c, name);
                lemma_insert_sorted(c, name, e, p);
                let d = c.insert(p, (name, e));
                assert forall|j: int| 0 <= j < d.len() && #[trigger] d[j].0 == name implies d[j].1 is UnknownElements by {
                    if j < p {
                        assert(d[j] == c[j]);
                    } else if j > p {
                        assert(d[j] == c[j - 1]);
                    }
                }
                ScopeModel { ty: root.ty, children: d }
            },
            Some(i) => {
                assert(c[i].0 == name);
                let a = c[i].1->UnknownElements_0;
                let ne = ElementModel::UnknownElements(a + seq![t]);
                lemma_update_sorted(c, i, ne);
                let d = c.update(i, (name, ne));
                ScopeModel { ty: root.ty, children: d }
            },
        };
        assert(add_immediate_model(root, name, e) == Some(r2));
        assert(add_child_model(root, name, e) == Some(r2));
        assert(handle_add_model(cur, this, root, unknown_name(), e) == Some((this, r2)));
        assert(parse_term_model(t, this, root, cur) == Some((this, r2)));
        lemma_control_terms_build(terms, k + 1, this, r2, cur);
    }
}

/// A code whose terms declare nothing builds a tree.
pub proof fn lemma_control_terms_structure(terms: Seq<AmlTerm>)
    requires
        forall|i: int| 0 <= i < terms.len() ==> declares_nothing(#[trigger] terms[i]),
    ensures
        structure_model(terms) is Some,
{
    let e = empty_scope(ScopeType::Scope);
    lemma_children_wf(e.children);
    lemma_control_terms_build(terms, 0, e, e, seq!['\\']);
}

/// The path of a scope named `name` declared in the scope at path `cur`.
fn scope_path_string(cur: &str, name: &str) -> (r: String)
    ensures
        r@ == scope_path(cur@, name@),
{
    let n = char_len(name);
    if n > 0 && char_at(name, 0) == '\\' {
        return string_from(name);
    }
    let c = char_len(cur);
    let mut r = string_from(cur);
    if !(c > 0 && char_at(cur, c - 1) == '\\') {
        push_char(&mut r, '.');
    }
    append_str(&mut r, name);
    proof {
        if c > 0 && cur@[c - 1] == '\\' {
            assert(r@ =~= cur@ + Seq::<char>::empty() + name@);
        } else {
            assert(r@ =~= cur@ + seq!['.'] + name@);
        }
    }
    r
}

/// Adds `element` under `name` as `handle_add_model` says.
fn handle_add(
    current_path: &str,
    this: &mut Scope,
    root: &mut Scope,
    name: &str,
    element: ElementType,
) -> (r: Result<(), StructuredAmlError>)
    requires
        scope_wf(scope_model(*old(this))),
        scope_wf(scope_model(*old(root))),
        element_wf(element_model(element)),
    ensures
        r is Ok <==> handle_add_model(
            current_path@,
            scope_model(*old(this)),
            scope_model(*old(root)),
            name@,
            element_model(element),
        ) is Some,
        r is Ok ==> handle_add_model(
            current_path@,
            scope_model(*old(this)),
            scope_model(*old(root)),
            name@,
            element_model(element),
        ) == Some((scope_model(*final(this)), scope_model(*final(root)))),
        r is Ok ==> scope_wf(scope_model(*final(this))) && scope_wf(scope_model(*final(root))),
    decreases name@.len(),
{
    let n = char_len(name);
    if n > 0 && char_at(name, 0) == '\\' {
        let rest = substring(name, 1, n);
        assert(rest@ =~= name@.drop_first());
        if n == 1 {
            match element {
                ElementType::ScopeOrDevice(scope) => root.merge(scope),
                _ => Err(StructuredAmlError::MalformedScope(string_from(name))),
            }
        } else {
            root.add_child(rest.as_str(), element)
        }
    } else if n > 0 && char_at(name, 0) == '^' {
        if n == 1 {
            return Err(StructuredAmlError::MalformedScope(string_from(name)));
        }
        let rest = substring(name, 1, n);
        assert(rest@ =~= name@.drop_first());
        proof {
            lemma_rindex_from(current_path@, '.', current_path@.len() - 1);
        }
        match rfind_char(current_path, '.') {
            None => Err(StructuredAmlError::MalformedScope(string_from(name))),
            Some(p) => {
                let parent = substring(current_path, 0, p);
                let pl = char_len(parent.as_str());
                if !(pl > 0 && char_at(parent.as_str(), 0) == '\\') {
                    return Err(StructuredAmlError::MalformedScope(string_from(name)));
                }
                if char_at(rest.as_str(), 0) == '^' {
                    handle_add(parent.as_str(), this, root, rest.as_str(), element)
                } else {
                    let mut full = parent;
                    push_char(&mut full, '.');
                    append_str(&mut full, rest.as_str());
                    let trimmed = trim_leading_backslashes(full.as_str());
                    assert(full@ =~= parent@ + seq!['.'] + rest@);
                    root.add_child(trimmed.as_str(), element)
                }
            },
        }
    } else {
        this.add_child(name, element)
    }
}

impl Scope {
    /// Builds the scope at path `current_path` of kind `ty` from a copy of
    /// `terms`; elements with absolute or parent-relative names go into
    /// `root`. The result and the new root are those of
    /// `parse_terms_model` on a copy of the terms, and the build fails
    /// exactly where that gives nothing. On an error the root may have been
    /// partly changed.
    pub fn parse(terms: &Vec<AmlTerm>, root: &mut Scope, current_path: &str, ty: ScopeType) -> (r: Result<Scope, StructuredAmlError>)
        requires
            scope_wf(scope_model(*old(root))),
        ensures
            exists|c: Seq<AmlTerm>|
                #[trigger] same_terms_from(c, terms@, 0) && match r {
                    Ok(this) => parse_terms_model(c, 0, empty_scope(ty), scope_model(*old(root)), current_path@)
                        == Some((scope_model(this), scope_model(*final(root)))) && scope_wf(scope_model(this))
                        && scope_wf(scope_model(*final(root))),
                    Err(_) => parse_terms_model(c, 0, empty_scope(ty), scope_model(*old(root)), current_path@) is None,
                },
    {
        let copy = copy_terms(terms);
        let r = Scope::parse_owned(copy, root, current_path, ty);
        assert(same_terms_from(copy@, terms@, 0));
        r
    }

    /// Builds from terms that are handed over, as `parse_terms_model` says.
    fn parse_owned(terms: Vec<AmlTerm>, root: &mut Scope, current_path: &str, ty: ScopeType) -> (r: Result<Scope, StructuredAmlError>)
        requires
            scope_wf(scope_model(*old(root))),
        ensures
            match r {
                Ok(this) => parse_terms_model(terms@, 0, empty_scope(ty), scope_model(*old(root)), current_path@)
                    == Some((scope_model(this), scope_model(*final(root)))) && scope_wf(scope_model(this))
                    && scope_wf(scope_model(*final(root))),
                Err(_) => parse_terms_model(terms@, 0, empty_scope(ty), scope_model(*old(root)), current_path@) is None,
            },
        decreases terms@,
    {
        let ghost all = terms@;
        let ghost n = all.len() as int;
        let ghost r0 = scope_model(*root);
        let mut this = Scope::new(ty);
        let mut rest = terms;
        let ghost mut k: int = 0;
        assert(all.subrange(0, n) =~= all);
        while rest.len() > 0
            invariant
                0 <= k <= n,
                n == all.len(),
                all == terms@,
                rest@ == all.subrange(k, n),
                r0 == scope_model(*old(root)),
                parse_terms_model(all, 0, empty_scope(ty), r0, current_path@)
                    == parse_terms_model(all, k, scope_model(this), scope_model(*root), current_path@),
                scope_wf(scope_model(this)),
                scope_wf(scope_model(*root)),
            decreases rest@.len(),
        {
            assert(rest@[0] == all[k]);
            let t = rest.remove(0);
            proof {
                assert(decreases_to!(terms@ => terms@[k]));
                assert(rest@ =~= all.subrange(k + 1, n));
            }
            let ghost this0 = scope_model(this);
            let ghost root0 = scope_model(*root);
            let res = parse_term(t, &mut this, root, current_path);
            match res {
                Ok(()) => {},
                Err(e) => {
                    assert(parse_term_model(all[k], this0, root0, current_path@) is None);
                    return Err(e);
                },
            }
            proof {
                k = k + 1;
            }
        }
        Ok(this)
    }
}

/// Builds from the scope term `sc` of kind `ty`, declared in the scope at
/// path `cur`.
fn parse_scope_term(sc: ScopeObj, ty: ScopeType, this: &mut Scope, root: &mut Scope, cur: &str) -> (r: Result<(), StructuredAmlError>)
    requires
        scope_wf(scope_model(*old(this))),
        scope_wf(scope_model(*old(root))),
    ensures
        ({
            let res = match parse_terms_model(
                sc.term_list@,
                0,
                empty_scope(ty),
                scope_model(*old(root)),
                scope_path(cur@, sc.name@),
            ) {
                Some((inner, r2)) => handle_add_model(
                    cur@,
                    scope_model(*old(this)),
                    r2,
                    sc.name@,
                    ElementModel::ScopeOrDevice(inner),
                ),
                None => None,
            };
            &&& r is Ok <==> res is Some
            &&& r is Ok ==> res == Some((scope_model(*final(this)), scope_model(*final(root))))
                && scope_wf(scope_model(*final(this))) && scope_wf(scope_model(*final(root)))
        }),
    decreases sc,
{
    let path = scope_path_string(cur, sc.name.as_str());
    let ScopeObj { name, term_list } = sc;
    proof {
        assert(decreases_to!(sc => sc.term_list));
        assert(decreases_to!(sc.term_list => sc.term_list@));
    }
    let inner = Scope::parse_owned(term_list, root, path.as_str(), ty)?;
    handle_add(cur, this, root, name.as_str(), ElementType::ScopeOrDevice(inner))
}

/// Builds from one term, as `parse_term_model` says.
fn parse_term(t: AmlTerm, this: &mut Scope, root: &mut Scope, cur: &str) -> (r: Result<(), StructuredAmlError>)
    requires
        scope_wf(scope_model(*old(this))),
        scope_wf(scope_model(*old(root))),
    ensures
        r is Ok <==> parse_term_model(t, scope_model(*old(this)), scope_model(*old(root)), cur@) is Some,
        r is Ok ==> parse_term_model(t, scope_model(*old(this)), scope_model(*old(root)), cur@)
            == Some((scope_model(*final(this)), scope_model(*final(root)))) && scope_wf(scope_model(*final(this)))
            && scope_wf(scope_model(*final(root))),
    decreases t,
{
    let ghost t0 = t;
    match t {
        AmlTerm::Scope(sc) => parse_scope_term(sc, ScopeType::Scope, this, root, cur),
        AmlTerm::Device(sc) => parse_scope_term(sc, ScopeType::Device, this, root, cur),
        AmlTerm::Region(region) => {
            let name = string_from(region.name.as_str());
            let e = ElementType::RegionFields(Some(region), Vec::new());
            proof {
                assert(fields_model(Seq::<FieldDef>::empty()) =~= Seq::empty());
            }
            handle_add(cur, this, root, name.as_str(), e)
        },
        AmlTerm::Field(field) => {
            let name = string_from(field.name.as_str());
            let ghost fm = field_model(field);
            let mut fields: Vec<FieldDef> = Vec::new();
            fields.push(field);
            proof {
                assert(fields_model(fields@) =~= seq![fm]);
            }
            handle_add(cur, this, root, name.as_str(), ElementType::RegionFields(None, fields))
        },
        AmlTerm::IndexField(f) => {
            let name = string_from(f.name.as_str());
            handle_add(cur, this, root, name.as_str(), ElementType::IndexField(f))
        },
        AmlTerm::Processor(p) => {
            let name = string_from(p.name.as_str());
            handle_add(cur, this, root, name.as_str(), ElementType::Processor(p))
        },
        AmlTerm::PowerResource(p) => {
            let name = string_from(p.name.as_str());
            handle_add(cur, this, root, name.as_str(), ElementType::PowerResource(p))
        },
        AmlTerm::Method(m) => {
            let name = string_from(m.name.as_str());
            handle_add(cur, this, root, name.as_str(), ElementType::Method(m))
        },
        AmlTerm::NameObj(n, o) => handle_add(cur, this, root, n.as_str(), ElementType::Name(o)),
        other => {
            let mut v: Vec<AmlTerm> = Vec::new();
            v.push(other);
            let name = "\\UNKW";
            proof {
                reveal_strlit("\\UNKW");
                assert(name@ =~= unknown_name());
                assert(v@ =~= seq![t0]);
            }
            handle_add(cur, this, root, name, ElementType::UnknownElements(v))
        },
    }
}

impl StructuredAml {
    /// Builds the tree of a whole code, as `structure_model` says of a copy
    /// of its terms.
    pub fn parse(code: &AmlCode) -> (r: Result<StructuredAml, StructuredAmlError>)
        ensures
            exists|c: Seq<AmlTerm>|
                #[trigger] same_terms_from(c, code.term_list@, 0) && match r {
                    Ok(s) => structure_model(c) == Some(scope_model(s.root)) && scope_wf(scope_model(s.root)),
                    Err(_) => structure_model(c) is None,
                },
    {
        let mut root = Scope::new(ScopeType::Scope);
        let copy = copy_terms(&code.term_list);
        let root_path = "\\";
        proof {
            reveal_strlit("\\");
            assert(root_path@ =~= seq!['\\']);
        }
        let res = Scope::parse_owned(copy, &mut root, root_path, ScopeType::Scope);
        assert(same_terms_from(copy@, code.term_list@, 0));
        match res {
            Ok(root_terms) => {
                let merged = root.merge(root_terms);
                match merged {
                    Ok(()) => Ok(StructuredAml { root }),
                    Err(e) => Err(e),
                }
            },
            Err(e) => Err(e),
        }
    }

    /// Looks up an absolute path such as `\_SB_.PCI0`.
    pub fn find_object(&self, label: &str) -> (r: Result<Option<&ElementType>, StructuredAmlError>)
        requires
            scope_wf(scope_model(self.root)),
        ensures
            !(label@.len() > 0 && label@[0] == '\\') ==> r matches Err(
                StructuredAmlError::QueryPathMustBeAbsolute,
            ),
            label@ == seq!['\\'] ==> r matches Err(StructuredAmlError::CannotQueryRoot),
            label@.len() > 1 && label@[0] == '\\' ==> match (r, find_model(scope_model(self.root), label@.drop_first())) {
                (Ok(None), Ok(None)) => true,
                (Ok(Some(e)), Ok(Some(m))) => element_model(*e) == m,
                (Err(StructuredAmlError::InvalidName(x)), Err(FindError::InvalidName(y))) => x@ == y,
                (
                    Err(StructuredAmlError::PartOfPathNotScope(x)),
                    Err(FindError::PartOfPathNotScope(y)),
                ) => x@ == y,
                _ => false,
            },
    {
        let n = char_len(label);
        if n > 0 && char_at(label, 0) == '\\' {
            if n == 1 {
                return Err(StructuredAmlError::CannotQueryRoot);
            }
            let rest = substring(label, 1, n);
            assert(rest@ =~= label@.drop_first());
            self.root.find_object(rest.as_str())
        } else {
            Err(StructuredAmlError::QueryPathMustBeAbsolute)
        }
    }
}

// ---------------------------------------------------------------------------
// Laws

/// A name that is not yet in a scope, once added, is found there holding
/// the element that was added.
pub proof fn lemma_add_then_find(s: ScopeModel, k: Seq<char>, e: ElementModel)
    requires
        scope_wf(s),
        element_wf(e),
        valid_segment(k),
        index_from(k, '.', 0) is None,
        key_index(s.children, k) is None,
    ensures
        add_immediate_model(s, k, e) matches Some(s2) && find_model(s2, k) == Ok::<
            Option<ElementModel>,
            FindError,
        >(Some(e)) && scope_wf(s2),
{
    let p = insert_pos(s.children, k);
    lemma_insert_exists(s.children, k);
    let c2 = s.children.insert(p, (k, e));
    lemma_insert_sorted(s.children, k, e, p);
    lemma_key_index(c2, k, p);
}

/// Adding a name to a scope does not change what is found under another
/// name of one segment.
pub proof fn lemma_add_keeps_others(s: ScopeModel, k: Seq<char>, e: ElementModel, k2: Seq<char>)
    requires
        scope_wf(s),
        element_wf(e),
        k2 != k,
        index_from(k2, '.', 0) is None,
        add_immediate_model(s, k, e) is Some,
    ensures
        find_model(add_immediate_model(s, k, e)->0, k2) == find_model(s, k2),
{
    let s2 = add_immediate_model(s, k, e)->0;
    let c = s.children;
    let c2 = s2.children;
    lemma_children_wf(c);
    match key_index(c, k) {
        None => {
            let p = insert_pos(c, k);
            lemma_insert_exists(c, k);
            lemma_insert_sorted(c, k, e, p);
            match key_index(c, k2) {
                Some(i) => {
                    assert(c[i].0 == k2);
                    if i < p {
                        assert(c2[i] == c[i]);
                        lemma_key_index(c2, k2, i);
                    } else {
                        assert(c2[i + 1] == c[i]);
                        lemma_key_index(c2, k2, i + 1);
                    }
                },
                None => {
                    assert forall|j: int| 0 <= j < c2.len() implies #[trigger] c2[j].0 != k2 by {
                        if j < p {
                            assert(c2[j] == c[j]);
                            assert(!(c[j].0 == k2));
                        } else if j > p {
                            assert(c2[j] == c[j - 1]);
                            assert(!(c[j - 1].0 == k2));
                        }
                    }
                },
            }
        },
        Some(i) => {
            assert(c[i].0 == k);
            assert(c2.len() == c.len());
            assert(c2[i].0 == k);
            assert forall|j: int| 0 <= j < c2.len() && j != i implies #[trigger] c2[j] == c[j] by {}
            assert(sorted_keys(c2)) by {
                assert forall|a: int, b: int| 0 <= a < b < c2.len() implies key_lt(#[trigger] c2[a].0, #[trigger] c2[b].0) by {
                    assert(key_lt(c[a].0, c[b].0));
                }
            }
            match key_index(c, k2) {
                Some(j) => {
                    assert(c[j].0 == k2);
                    assert(j != i);
                    lemma_key_index(c2, k2, j);
                },
                None => {
                    assert forall|j: int| 0 <= j < c2.len() implies #[trigger] c2[j].0 != k2 by {
                        if j != i {
                            assert(!(c[j].0 == k2));
                        }
                    }
                },
            }
        },
    }
}

/// In a scope with names in order, every name has a place to be inserted.
pub proof fn lemma_insert_exists(c: Seq<(Seq<char>, ElementModel)>, k: Seq<char>)
    requires
        sorted_keys(c),
    ensures
        is_insert_pos(c, k, insert_pos(c, k)),
{
    let p = count_below(c, k, 0);
    lemma_count_below(c, k, 0);
    lemma_insert_pos(c, k, p);
}

/// The first position at or after `i` whose name is not below `k`.
spec fn count_below(c: Seq<(Seq<char>, ElementModel)>, k: Seq<char>, i: int) -> int
    decreases c.len() - i,
{
    if i < 0 || i >= c.len() {
        c.len() as int
    } else if key_lt(c[i].0, k) {
        count_below(c, k, i + 1)
    } else {
        i
    }
}

proof fn lemma_count_below(c: Seq<(Seq<char>, ElementModel)>, k: Seq<char>, i: int)
    requires
        sorted_keys(c),
        0 <= i <= c.len(),
        forall|j: int| 0 <= j < i ==> key_lt(#[trigger] c[j].0, k),
    ensures
        is_insert_pos(c, k, count_below(c, k, i)),
    decreases c.len() - i,
{
    if i < c.len() {
        if key_lt(c[i].0, k) {
            lemma_count_below(c, k, i + 1);
        } else {
            assert forall|j: int| i <= j < c.len() implies !key_lt(#[trigger] c[j].0, k) by {
                if j > i && key_lt(c[j].0, k) {
                    assert(key_lt(c[i].0, c[j].0));
                    lemma_key_lt_transitive(c[i].0, c[j].0, k);
                }
            }
        }
    }
}

} // verus!
