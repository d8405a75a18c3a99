//! The parsed CMSIS-SVD data model (the subset grounding works against).

use vstd::prelude::*;
use crate::text::{eq_ignore_case, eq_ignore_case_spec};

verus! {

#[derive(Debug, Clone)]
pub struct Field {
    pub name: String,
    pub description: Option<String>,
    pub bit_offset: u32,
    pub bit_width: u32,
}

#[derive(Debug, Clone)]
pub struct Register {
    pub name: String,
    pub description: Option<String>,
    pub address_offset: u64,
    pub fields: Vec<Field>,
}

#[derive(Debug, Clone)]
pub struct Peripheral {
    pub name: String,
    pub description: Option<String>,
    pub base_address: u64,
    pub derived_from: Option<String>,
    pub registers: Vec<Register>,
}

#[derive(Debug, Clone)]
pub struct Device {
    pub name: String,
    pub description: Option<String>,
    pub peripherals: Vec<Peripheral>,
}

#[verifier::ext_equal]
pub struct FieldModel {
    pub name: Seq<char>,
    pub description: Option<Seq<char>>,
    pub bit_offset: u32,
    pub bit_width: u32,
}

#[verifier::ext_equal]
pub struct RegisterModel {
    pub name: Seq<char>,
    pub description: Option<Seq<char>>,
    pub address_offset: u64,
    pub fields: Seq<FieldModel>,
}

#[verifier::ext_equal]
pub struct PeripheralModel {
    pub name: Seq<char>,
    pub description: Option<Seq<char>>,
    pub base_address: u64,
    pub derived_from: Option<Seq<char>>,
    pub registers: Seq<RegisterModel>,
}

#[verifier::ext_equal]
pub struct DeviceModel {
    pub name: Seq<char>,
    pub description: Option<Seq<char>>,
    pub peripherals: Seq<PeripheralModel>,
}

pub open spec fn fields_view(v: Seq<Field>) -> Seq<FieldModel> {
    v.map_values(|f: Field| f@)
}

pub open spec fn registers_view(v: Seq<Register>) -> Seq<RegisterModel> {
    v.map_values(|r: Register| r@)
}

pub open spec fn peripherals_view(v: Seq<Peripheral>) -> Seq<PeripheralModel> {
    v.map_values(|p: Peripheral| p@)
}

impl View for Field {
    type V = FieldModel;

    open spec fn view(&self) -> FieldModel {
        FieldModel {
            name: self.name@,
            description: self.description.deep_view(),
            bit_offset: self.bit_offset,
            bit_width: self.bit_width,
        }
    }
}

impl View for Register {
    type V = RegisterModel;

    open spec fn view(&self) -> RegisterModel {
        RegisterModel {
            name: self.name@,
            description: self.description.deep_view(),
            address_offset: self.address_offset,
            fields: fields_view(self.fields@),
        }
    }
}

impl View for Peripheral {
    type V = PeripheralModel;

    open spec fn view(&self) -> PeripheralModel {
        PeripheralModel {
            name: self.name@,
            description: self.description.deep_view(),
            base_address: self.base_address,
            derived_from: self.derived_from.deep_view(),
            registers: registers_view(self.registers@),
        }
    }
}

impl View for Device {
    type V = DeviceModel;

    open spec fn view(&self) -> DeviceModel {
        DeviceModel {
            name: self.name@,
            description: self.description.deep_view(),
            peripherals: peripherals_view(self.peripherals@),
        }
    }
}

/// Index of the first peripheral whose name equals `name`, ignoring ASCII case.
pub open spec fn peripheral_index(ps: Seq<PeripheralModel>, name: Seq<char>) -> Option<int>
    decreases ps.len(),
{
    if ps.len() == 0 {
        None
    } else if eq_ignore_case_spec(ps[0].name, name) {
        Some(0)
    } else {
        match peripheral_index(ps.drop_first(), name) {
            Some(i) => Some(i + 1),
            None => None,
        }
    }
}

/// Index of the first register whose name equals `name`, ignoring ASCII case.
pub open spec fn register_index(rs: Seq<RegisterModel>, name: Seq<char>) -> Option<int>
    decreases rs.len(),
{
    if rs.len() == 0 {
        None
    } else if eq_ignore_case_spec(rs[0].name, name) {
        Some(0)
    } else {
        match register_index(rs.drop_first(), name) {
            Some(i) => Some(i + 1),
            None => None,
        }
    }
}

proof fn lemma_peripheral_index(ps: Seq<PeripheralModel>, name: Seq<char>, i: int)
    requires
        0 <= i <= ps.len(),
        forall|j: int| 0 <= j < i ==> !eq_ignore_case_spec(#[trigger] ps[j].name, name),
    ensures
        peripheral_index(ps, name) == match peripheral_index(ps.subrange(i, ps.len() as int), name) {
            Some(k) => Some(k + i),
            None => None::<int>,
        },
    decreases i,
{
    if i == 0 {
        assert(ps.subrange(0, ps.len() as int) =~= ps);
        match peripheral_index(ps, name) {
            Some(k) => {},
            None => {},
        }
    } else {
        let t = ps.drop_first();
        assert(!eq_ignore_case_spec(ps[0].name, name));
        assert forall|j: int| 0 <= j < i - 1 implies !eq_ignore_case_spec(#[trigger] t[j].name, name) by {
            assert(t[j] == ps[j + 1]);
        }
        lemma_peripheral_index(t, name, i - 1);
        assert(t.subrange(i - 1, t.len() as int) =~= ps.subrange(i, ps.len() as int));
    }
}

proof fn lemma_register_index(rs: Seq<RegisterModel>, name: Seq<char>, i: int)
    requires
        0 <= i <= rs.len(),
        forall|j: int| 0 <= j < i ==> !eq_ignore_case_spec(#[trigger] rs[j].name, name),
    ensures
        register_index(rs, name) == match register_index(rs.subrange(i, rs.len() as int), name) {
            Some(k) => Some(k + i),
            None => None::<int>,
        },
    decreases i,
{
    if i == 0 {
        assert(rs.subrange(0, rs.len() as int) =~= rs);
        match register_index(rs, name) {
            Some(k) => {},
            None => {},
        }
    } else {
        let t = rs.drop_first();
        assert(!eq_ignore_case_spec(rs[0].name, name));
        assert forall|j: int| 0 <= j < i - 1 implies !eq_ignore_case_spec(#[trigger] t[j].name, name) by {
            assert(t[j] == rs[j + 1]);
        }
        lemma_register_index(t, name, i - 1);
        assert(t.subrange(i - 1, t.len() as int) =~= rs.subrange(i, rs.len() as int));
    }
}

/// A found peripheral index lies within the sequence.
pub proof fn lemma_peripheral_index_bounds(ps: Seq<PeripheralModel>, name: Seq<char>)
    ensures
        peripheral_index(ps, name) matches Some(i) ==> 0 <= i < ps.len(),
    decreases ps.len(),
{
    if ps.len() > 0 {
        lemma_peripheral_index_bounds(ps.drop_first(), name);
    }
}

/// A found register index lies within the sequence.
pub proof fn lemma_register_index_bounds(rs: Seq<RegisterModel>, name: Seq<char>)
    ensures
        register_index(rs, name) matches Some(i) ==> 0 <= i < rs.len(),
    decreases rs.len(),
{
    if rs.len() > 0 {
        lemma_register_index_bounds(rs.drop_first(), name);
    }
}

/// Position of the first peripheral named `name` (ASCII case ignored).
pub fn find_peripheral(ps: &Vec<Peripheral>, name: &str) -> (r: Option<usize>)
    ensures
        r matches Some(i) ==> peripheral_index(peripherals_view(ps@), name@) == Some(i as int)
            && i < ps@.len(),
        r is None ==> peripheral_index(peripherals_view(ps@), name@) is None,
{
    let ghost v = peripherals_view(ps@);
    let mut i: usize = 0;
    while i < ps.len()
        invariant
            i <= ps.len(),
            v == peripherals_view(ps@),
            forall|j: int| 0 <= j < i ==> !eq_ignore_case_spec(#[trigger] v[j].name, name@),
        decreases ps.len() - i,
    {
        if eq_ignore_case(ps[i].name.as_str(), name) {
            proof {
                lemma_peripheral_index(v, name@, i as int);
                assert(v.subrange(i as int, v.len() as int)[0] == v[i as int]);
            }
            return Some(i);
        }
        i += 1;
    }
    proof {
        lemma_peripheral_index(v, name@, i as int);
    }
    None
}

/// Position of the first register named `name` (ASCII case ignored).
pub fn find_register(rs: &Vec<Register>, name: &str) -> (r: Option<usize>)
    ensures
        r matches Some(i) ==> register_index(registers_view(rs@), name@) == Some(i as int)
            && i < rs@.len(),
        r is None ==> register_index(registers_view(rs@), name@) is None,
{
    let ghost v = registers_view(rs@);
    let mut i: usize = 0;
    while i < rs.len()
        invariant
            i <= rs.len(),
            v == registers_view(rs@),
            forall|j: int| 0 <= j < i ==> !eq_ignore_case_spec(#[trigger] v[j].name, name@),
        decreases rs.len() - i,
    {
        if eq_ignore_case(rs[i].name.as_str(), name) {
            proof {
                lemma_register_index(v, name@, i as int);
                assert(v.subrange(i as int, v.len() as int)[0] == v[i as int]);
            }
            return Some(i);
        }
        i += 1;
    }
    proof {
        lemma_register_index(v, name@, i as int);
    }
    None
}

impl Device {
    /// The first peripheral whose name matches, ignoring ASCII case.
    pub fn peripheral(&self, name: &str) -> (r: Option<&Peripheral>)
        ensures
            r == match peripheral_index(self@.peripherals, name@) {
                Some(i) => Some(&self.peripherals@[i]),
                None => None,
            },
    {
        match find_peripheral(&self.peripherals, name) {
            Some(i) => Some(&self.peripherals[i]),
            None => None,
        }
    }
}

impl Peripheral {
    /// The first register whose name matches, ignoring ASCII case.
    pub fn register(&self, name: &str) -> (r: Option<&Register>)
        ensures
            r == match register_index(self@.registers, name@) {
                Some(i) => Some(&self.registers@[i]),
                None => None,
            },
    {
        match find_register(&self.registers, name) {
            Some(i) => Some(&self.registers[i]),
            None => None,
        }
    }
}

} // verus!
