//! ACPI: the AML byte-code language and the firmware description tables,
//! and the sleep states that the AML code describes.

pub mod aml;
pub mod tables;

use vstd::prelude::*;
use aml::Aml;
use aml::execution::{
    elements_evaluate_to, element_evaluates_to, evaluable, evaluates_to, lemma_elements_evaluate_to_each,
    DataObject, ExecutionContext,
};
use aml::parser::{IntegerData, PackageElement, UnresolvedDataObject};
use aml::structured::{find_model, scope_model, ElementModel, ScopeModel};
use tables::facp::flags;
use crate::text::push_char;

verus! {

#[derive(Debug)]
pub enum AcpiError {
    InvalidSleepType,
    SleepTypeNotAvailable,
}

/// The byte an integer gives where it fits one.
pub open spec fn byte_of(i: IntegerData) -> Option<u8> {
    match i {
        IntegerData::ByteConst(b) => Some(b),
        IntegerData::ConstZero => Some(0u8),
        IntegerData::ConstOne => Some(1u8),
        IntegerData::ConstOnes => Some(0xFFu8),
        _ => None,
    }
}

/// A sleep-type value: an integer element that fits a byte, cut to its low
/// three bits.
pub open spec fn sleep_byte(e: PackageElement<UnresolvedDataObject>) -> Option<u8> {
    match e {
        PackageElement::DataObject(UnresolvedDataObject::Integer(i)) => match byte_of(i) {
            Some(b) => Some(b & 7),
            None => None,
        },
        _ => None,
    }
}

/// The pair of sleep-type values of a package's elements: the first two
/// elements, each a sleep-type value, with 0 for an element that is absent.
pub open spec fn sleep_pair(els: Seq<PackageElement<UnresolvedDataObject>>) -> Option<Seq<u8>> {
    let first = if els.len() > 0 {
        sleep_byte(els[0])
    } else {
        Some(0u8)
    };
    let second = if els.len() > 1 {
        sleep_byte(els[1])
    } else {
        Some(0u8)
    };
    match (first, second) {
        (Some(a), Some(b)) => Some(seq![a, b]),
        _ => None,
    }
}

/// The sleep-type pair named `name` in the tree `root`: the named object
/// must be a package that can be evaluated.
pub open spec fn s_array_model(root: ScopeModel, name: Seq<char>) -> Option<Seq<u8>> {
    if name.len() > 1 && name[0] == '\\' {
        match find_model(root, name.drop_first()) {
            Ok(Some(ElementModel::Name(u))) => if evaluable(u) {
                match u {
                    UnresolvedDataObject::Package(_, els) => sleep_pair(els@),
                    _ => None,
                }
            } else {
                None
            },
            _ => None,
        }
    } else {
        None
    }
}

spec fn evaluated_byte(e: PackageElement<DataObject>) -> Option<u8> {
    match e {
        PackageElement::DataObject(DataObject::Integer(i)) => match byte_of(i) {
            Some(b) => Some(b & 7),
            None => None,
        },
        _ => None,
    }
}

proof fn lemma_evaluated_byte(u: PackageElement<UnresolvedDataObject>, d: PackageElement<DataObject>)
    requires
        element_evaluates_to(u, d),
    ensures
        evaluated_byte(d) == sleep_byte(u),
{
    match (u, d) {
        (PackageElement::DataObject(x), PackageElement::DataObject(y)) => {
            assert(evaluates_to(x, y));
        },
        _ => {},
    }
}

/// The sleep-type value of one evaluated element.
fn element_byte(e: &PackageElement<DataObject>) -> (r: Option<u8>)
    ensures
        r == evaluated_byte(*e),
{
    let data = match e.as_data() {
        Some(d) => d,
        None => return None,
    };
    let integer = match data.as_integer() {
        Some(i) => i,
        None => return None,
    };
    match integer.as_u8() {
        Some(b) => {
            let mut b = b;
            if b & !7u8 != 0 {
                b = b & 7;
            } else {
                proof {
                    crate::bits::lemma_u8(b);
                }
            }
            Some(b)
        },
        None => None,
    }
}

/// Evaluates the sleep package `name` (such as `\_S5_`) and reads the
/// SLP_TYPa and SLP_TYPb values from its first two elements.
pub fn fetch_s_array(aml: &Aml, name: &str) -> (r: Option<[u8; 2]>)
    requires
        aml.wf(),
    ensures
        match s_array_model(scope_model(aml.root_view()), name@) {
            Some(v) => r matches Some(a) && a@ == v,
            None => r is None,
        },
{
    let mut ctx = ExecutionContext {};
    let args: Vec<UnresolvedDataObject> = Vec::new();
    let result = aml.execute(&mut ctx, name, args.as_slice());
    let ghost root = scope_model(aml.root_view());
    match result {
        Ok(obj) => {
            let package = match obj.as_package() {
                Some(p) => p,
                None => {
                    proof {
                        if name@.len() > 1 && name@[0] == '\\' {
                            if let Ok(Some(ElementModel::Name(u))) = find_model(root, name@.drop_first()) {
                                assert(evaluates_to(u, obj));
                            }
                        }
                    }
                    return None;
                },
            };
            let ghost u = choose|u: UnresolvedDataObject|
                find_model(root, name@.drop_first()) == Ok::<Option<ElementModel>, aml::structured::FindError>(
                    Some(ElementModel::Name(u)),
                );
            proof {
                assert(name@.len() > 1 && name@[0] == '\\');
                assert(find_model(root, name@.drop_first()) matches Ok(Some(ElementModel::Name(_))));
                assert(evaluates_to(u, obj));
            }
            let ghost els = match u {
                UnresolvedDataObject::Package(_, els) => els@,
                _ => Seq::empty(),
            };
            proof {
                assert(u is Package);
                lemma_elements_evaluate_to_each(els, package.elements@, 0);
            }
            let n = package.elements.len();
            let a = if n > 0 {
                proof {
                    lemma_evaluated_byte(els[0], package.elements@[0]);
                }
                match element_byte(&package.elements[0]) {
                    Some(b) => b,
                    None => return None,
                }
            } else {
                0u8
            };
            let b = if n > 1 {
                proof {
                    lemma_evaluated_byte(els[1], package.elements@[1]);
                }
                match element_byte(&package.elements[1]) {
                    Some(b) => b,
                    None => return None,
                }
            } else {
                0u8
            };
            let out = [a, b];
            assert(out@ =~= seq![a, b]);
            Some(out)
        },
        Err(_) => None,
    }
}

/// The path of the sleep package for sleep state `k + 1`: `\_S1_` to `\_S5_`.
pub open spec fn sleep_name(k: int) -> Seq<char> {
    seq!['\\', '_', 'S', sleep_digit(k), '_']
}

pub open spec fn sleep_digit(k: int) -> char {
    if k == 0 {
        '1'
    } else if k == 1 {
        '2'
    } else if k == 2 {
        '3'
    } else if k == 3 {
        '4'
    } else {
        '5'
    }
}

fn make_sleep_name(k: usize) -> (r: String)
    requires
        k < 5,
    ensures
        r@ == sleep_name(k as int),
{
    let mut s = String::new();
    push_char(&mut s, '\\');
    push_char(&mut s, '_');
    push_char(&mut s, 'S');
    let d = if k == 0 {
        '1'
    } else if k == 1 {
        '2'
    } else if k == 2 {
        '3'
    } else if k == 3 {
        '4'
    } else {
        '5'
    };
    push_char(&mut s, d);
    push_char(&mut s, '_');
    assert(s@ =~= sleep_name(k as int));
    s
}

/// The first sleep-type pair named `name` among the trees `roots`, in order.
pub open spec fn first_s_array(roots: Seq<ScopeModel>, name: Seq<char>) -> Option<Seq<u8>>
    decreases roots.len(),
{
    if roots.len() == 0 {
        None
    } else {
        match s_array_model(roots[0], name) {
            Some(v) => Some(v),
            None => first_s_array(roots.drop_first(), name),
        }
    }
}

/// The trees of a list of AML tables.
pub open spec fn roots_of(amls: Seq<Aml>) -> Seq<ScopeModel> {
    amls.map_values(|a: Aml| scope_model(a.root_view()))
}

proof fn lemma_first_s_array_push(roots: Seq<ScopeModel>, r: ScopeModel, name: Seq<char>)
    ensures
        first_s_array(roots.push(r), name) == match first_s_array(roots, name) {
            Some(v) => Some(v),
            None => s_array_model(r, name),
        },
    decreases roots.len(),
{
    if roots.len() == 0 {
        assert(roots.push(r).drop_first() =~= Seq::<ScopeModel>::empty());
    } else {
        assert(roots.push(r).drop_first() =~= roots.drop_first().push(r));
        lemma_first_s_array_push(roots.drop_first(), r, name);
    }
}

/// What is known of the sleep states.
#[derive(Debug)]
pub struct Acpi {
    /// SLP_TYPa and SLP_TYPb data for \_S1_ until \_S5_
    pub slp_type_data: [Option<[u8; 2]>; 5],
}

/// The data that the tables give for sleep state `k + 1`.
pub open spec fn slp_entry_of(e: Option<[u8; 2]>) -> Option<Seq<u8>> {
    match e {
        Some(a) => Some(a@),
        None => None,
    }
}

impl Acpi {
    /// Reads the sleep packages `\_S1_` to `\_S5_` from the AML tables,
    /// taking each from the first table that defines it.
    pub fn from_tables(amls: &[Aml]) -> (r: Acpi)
        requires
            forall|t: int| 0 <= t < amls@.len() ==> #[trigger] amls@[t].wf(),
        ensures
            forall|k: int| 0 <= k < 5 ==> slp_entry_of(#[trigger] r.slp_type_data@[k]) == first_s_array(
                roots_of(amls@),
                sleep_name(k),
            ),
    {
        let mut slp_type_data: [Option<[u8; 2]>; 5] = [None, None, None, None, None];
        let mut t: usize = 0;
        while t < amls.len()
            invariant
                t <= amls@.len(),
                forall|u: int| 0 <= u < amls@.len() ==> #[trigger] amls@[u].wf(),
                forall|k: int| 0 <= k < 5 ==> slp_entry_of(#[trigger] slp_type_data@[k]) == first_s_array(
                    roots_of(amls@).take(t as int),
                    sleep_name(k),
                ),
            decreases amls@.len() - t,
        {
            let ghost before = slp_type_data;
            let mut k: usize = 0;
            while k < 5
                invariant
                    t < amls@.len(),
                    k <= 5,
                    amls@[t as int].wf(),
                    forall|j: int| 0 <= j < k ==> slp_entry_of(#[trigger] slp_type_data@[j]) == match slp_entry_of(before@[j]) {
                        Some(v) => Some(v),
                        None => s_array_model(scope_model(amls@[t as int].root_view()), sleep_name(j)),
                    },
                    forall|j: int| k <= j < 5 ==> #[trigger] slp_type_data@[j] == before@[j],
                decreases 5 - k,
            {
                if slp_type_data[k].is_none() {
                    let name = make_sleep_name(k);
                    let found = fetch_s_array(&amls[t], name.as_str());
                    if found.is_some() {
                        slp_type_data[k] = found;
                    }
                }
                k = k + 1;
            }
            proof {
                assert(roots_of(amls@).take(t + 1) =~= roots_of(amls@).take(t as int).push(
                    scope_model(amls@[t as int].root_view()),
                ));
                assert forall|j: int| 0 <= j < 5 implies slp_entry_of(#[trigger] slp_type_data@[j])
                    == first_s_array(roots_of(amls@).take(t + 1), sleep_name(j)) by {
                    lemma_first_s_array_push(
                        roots_of(amls@).take(t as int),
                        scope_model(amls@[t as int].root_view()),
                        sleep_name(j),
                    );
                }
            }
            t = t + 1;
        }
        proof {
            assert(roots_of(amls@).take(amls@.len() as int) =~= roots_of(amls@));
        }
        Acpi { slp_type_data }
    }

    /// The new PM1 control values that enter sleep state `ty` (1 to 5),
    /// from the current values of the A register and, where there is one,
    /// the B register: the sleep type goes into bits 10 to 12, and the A
    /// value also gets the sleep-enable bit.
    pub fn sleep_controls(&self, ty: u8, ctrl_a: u16, ctrl_b: Option<u16>) -> (r: Result<
        (u16, Option<u16>),
        AcpiError,
    >)
        ensures
            (ty == 0 || ty > 5) ==> r matches Err(AcpiError::InvalidSleepType),
            1 <= ty <= 5 && self.slp_type_data@[ty - 1] is None ==> r matches Err(
                AcpiError::SleepTypeNotAvailable,
            ),
            1 <= ty <= 5 && self.slp_type_data@[ty - 1] is Some ==> ({
                let d = self.slp_type_data@[ty - 1]->Some_0;
                r matches Ok((a, b)) && a == ((ctrl_a & !0x1C00u16) | ((d[0] as u16) << 10u16)) | 0x2000u16
                    && b == match ctrl_b {
                    Some(x) => Some((x & !0x1C00u16) | ((d[1] as u16) << 10u16)),
                    None => None,
                }
            }),
    {
        if ty == 0 || ty > 5 {
            return Err(AcpiError::InvalidSleepType);
        }
        match self.slp_type_data[(ty - 1) as usize] {
            Some(slp_data) => {
                let a = (ctrl_a & !flags::PM_CTRL_SLP_TYP_MASK) | ((slp_data[0] as u16)
                    << flags::PM_CTRL_SLP_TYP_SHIFT);
                let b = match ctrl_b {
                    Some(x) => Some(
                        (x & !flags::PM_CTRL_SLP_TYP_MASK) | ((slp_data[1] as u16)
                            << flags::PM_CTRL_SLP_TYP_SHIFT),
                    ),
                    None => None,
                };
                Ok((a | flags::PM_CTRL_SLP_EN, b))
            },
            None => Err(AcpiError::SleepTypeNotAvailable),
        }
    }
}

/// Whether a sleep has ended: the wake status bit of PM1 status.
pub fn is_woken(pm1_status: u16) -> (r: bool)
    ensures
        r == (pm1_status & 0x8000 != 0),
{
    pm1_status & flags::PM_STS_WAK != 0
}

/// The status bit to clear for a PM1 event, by priority: global, sleep
/// button, RTC, power button, timer. `None` for an event with none of them.
pub fn pm1_event_to_clear(pm1_event: u16) -> (r: Option<u16>)
    ensures
        r == if pm1_event & 0x0020 != 0 {
            Some(0x0020u16)
        } else if pm1_event & 0x0200 != 0 {
            Some(0x0200u16)
        } else if pm1_event & 0x0400 != 0 {
            Some(0x0400u16)
        } else if pm1_event & 0x0100 != 0 {
            Some(0x0100u16)
        } else if pm1_event & 0x0001 != 0 {
            Some(0x0001u16)
        } else {
            None
        },
{
    if pm1_event & flags::PM_EN_GBL != 0 {
        Some(flags::PM_EN_GBL)
    } else if pm1_event & flags::PM_EN_SLPBTN != 0 {
        Some(flags::PM_EN_SLPBTN)
    } else if pm1_event & flags::PM_EN_RTC != 0 {
        Some(flags::PM_EN_RTC)
    } else if pm1_event & flags::PM_EN_PWRBTN != 0 {
        Some(flags::PM_EN_PWRBTN)
    } else if pm1_event & flags::PM_EN_TMR != 0 {
        Some(flags::PM_EN_TMR)
    } else {
        None
    }
}

} // verus!
