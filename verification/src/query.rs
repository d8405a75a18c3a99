//! Grounded queries over a CMSIS-SVD device. Every answer carries a confidence
//! tier and a citation; a miss is REFUSED (OutOfScope), never fabricated.

use vstd::prelude::*;
use crate::model::{
    fields_view, peripheral_index, register_index, Device, DeviceModel, Field, FieldModel,
    Peripheral, PeripheralModel, Register, RegisterModel,
};
use crate::svd::{dup_fields, parse_svd, svd_spec};
use crate::text::{push_str, string_of};
use crate::tiers::Tier;

verus! {

/// Where a fact came from: the auditable pointer that makes grounding real.
#[derive(Debug, Clone)]
pub struct Citation {
    /// the SVD file
    pub source: String,
    /// node path within it, e.g. device/peripherals/USART2/registers/CR1
    pub path: String,
}

/// A fact plus its confidence tier and provenance. `value` is `None` on a refusal.
#[derive(Debug, Clone)]
pub struct Grounded<T> {
    pub value: Option<T>,
    pub tier: Tier,
    pub citation: Option<Citation>,
    pub note: String,
}

#[derive(Debug, Clone)]
pub struct RegisterView {
    pub name: String,
    pub offset: u64,
    pub absolute_address: u64,
    pub description: Option<String>,
    pub fields: Vec<Field>,
}

#[derive(Debug, Clone)]
pub struct PeripheralView {
    pub name: String,
    pub base_address: u64,
    pub registers: Vec<RegisterView>,
}

#[verifier::ext_equal]
pub struct RegisterFact {
    pub name: Seq<char>,
    pub offset: u64,
    pub absolute_address: u64,
    pub description: Option<Seq<char>>,
    pub fields: Seq<FieldModel>,
}

#[verifier::ext_equal]
pub struct PeripheralFact {
    pub name: Seq<char>,
    pub base_address: u64,
    pub registers: Seq<RegisterFact>,
}

impl View for RegisterView {
    type V = RegisterFact;

    open spec fn view(&self) -> RegisterFact {
        RegisterFact {
            name: self.name@,
            offset: self.offset,
            absolute_address: self.absolute_address,
            description: self.description.deep_view(),
            fields: fields_view(self.fields@),
        }
    }
}

impl View for PeripheralView {
    type V = PeripheralFact;

    open spec fn view(&self) -> PeripheralFact {
        PeripheralFact {
            name: self.name@,
            base_address: self.base_address,
            registers: self.registers@.map_values(|r: RegisterView| r@),
        }
    }
}

pub struct DatasheetIndex {
    pub device: Device,
    pub source: String,
}

/// `base + offset` as the release build computes it in `u64`.
pub open spec fn absolute(base: u64, offset: u64) -> u64 {
    ((base + offset) % 0x1_0000_0000_0000_0000) as u64
}

/// The grounded view of register `r` of peripheral `p`.
pub open spec fn register_fact(p: PeripheralModel, r: RegisterModel) -> RegisterFact {
    RegisterFact {
        name: r.name,
        offset: r.address_offset,
        absolute_address: absolute(p.base_address, r.address_offset),
        description: r.description,
        fields: r.fields,
    }
}

/// The grounded view of peripheral `p`: every register with its absolute address.
pub open spec fn peripheral_fact(p: PeripheralModel) -> PeripheralFact {
    PeripheralFact {
        name: p.name,
        base_address: p.base_address,
        registers: p.registers.map_values(|r: RegisterModel| register_fact(p, r)),
    }
}

/// The note of a refused peripheral.
pub open spec fn peripheral_miss(peripheral: Seq<char>) -> Seq<char> {
    "peripheral '"@ + peripheral + "' not in structured source; not fabricated"@
}

/// The note of a refused register.
pub open spec fn register_miss(peripheral: Seq<char>, register: Seq<char>) -> Seq<char> {
    "register '"@ + peripheral + "."@ + register + "' not in structured source; not fabricated"@
}

pub open spec fn citation_view(c: Option<Citation>) -> Option<(Seq<char>, Seq<char>)> {
    match c {
        Some(x) => Some((x.source@, x.path@)),
        None => None,
    }
}

impl DatasheetIndex {
    /// Parses an SVD text; `source` names it in every citation.
    pub fn from_svd_str(xml: &str, source: &str) -> (r: Result<DatasheetIndex, String>)
        ensures
            r matches Ok(idx) ==> svd_spec(xml@) == Ok::<DeviceModel, Seq<char>>(idx.device@)
                && idx.source@ == source@,
            r matches Err(e) ==> svd_spec(xml@) == Err::<DeviceModel, Seq<char>>(e@),
    {
        match parse_svd(xml) {
            Ok(device) => Ok(DatasheetIndex { device, source: source.to_owned() }),
            Err(e) => Err(e),
        }
    }

    fn register_view(p: &Peripheral, r: &Register) -> (v: RegisterView)
        ensures
            v@ == register_fact(p@, r@),
    {
        let v = RegisterView {
            name: r.name.clone(),
            offset: r.address_offset,
            absolute_address: p.base_address.wrapping_add(r.address_offset),
            description: crate::oracle::dup_opt(&r.description),
            fields: dup_fields(&r.fields),
        };
        assert(v@ =~= register_fact(p@, r@));
        v
    }

    fn view_peripheral(&self, p: &Peripheral) -> (v: PeripheralView)
        ensures
            v@ == peripheral_fact(p@),
    {
        let mut registers: Vec<RegisterView> = Vec::new();
        let mut i: usize = 0;
        while i < p.registers.len()
            invariant
                i <= p.registers.len(),
                registers@.len() == i,
                forall|j: int| 0 <= j < i ==> #[trigger] registers@[j]@ == register_fact(
                    p@,
                    p.registers@[j]@,
                ),
            decreases p.registers.len() - i,
        {
            registers.push(Self::register_view(p, &p.registers[i]));
            i += 1;
        }
        let v = PeripheralView { name: p.name.clone(), base_address: p.base_address, registers };
        assert(v@ =~= peripheral_fact(p@));
        v
    }

    fn cite(&self, path: String) -> (c: Citation)
        ensures
            c.source@ == self.source@,
            c.path == path,
    {
        Citation { source: self.source.clone(), path }
    }

    fn refuse<T>(&self, note: String) -> (g: Grounded<T>)
        ensures
            g.value is None,
            g.tier == Tier::OutOfScope,
            g.citation is None,
            g.note == note,
    {
        Grounded { value: None, tier: Tier::OutOfScope, citation: None, note }
    }

    /// Authoritative register map for a peripheral: Verified and cited on a
    /// hit, refused on a miss.
    pub fn register_map(&self, peripheral: &str) -> (g: Grounded<PeripheralView>)
        ensures
            match peripheral_index(self.device@.peripherals, peripheral@) {
                Some(i) => {
                    let p = self.device@.peripherals[i];
                    &&& g.value matches Some(v) && v@ == peripheral_fact(p)
                    &&& g.tier == Tier::Verified
                    &&& citation_view(g.citation) == Some(
                        (self.source@, "device/peripherals/"@ + p.name),
                    )
                    &&& g.note@ == "CMSIS-SVD structured source"@
                },
                None => {
                    &&& g.value is None
                    &&& g.tier == Tier::OutOfScope
                    &&& g.citation is None
                    &&& g.note@ == peripheral_miss(peripheral@)
                },
            },
    {
        let ghost idx = peripheral_index(self.device@.peripherals, peripheral@);
        match self.device.peripheral(peripheral) {
            Some(p) => {
                proof {
                    let i = idx->0;
                    crate::model::lemma_peripheral_index_bounds(self.device@.peripherals, peripheral@);
                    assert(self.device@.peripherals[i] == self.device.peripherals@[i]@);
                }
                let mut path: Vec<char> = Vec::new();
                push_str(&mut path, "device/peripherals/");
                push_str(&mut path, p.name.as_str());
                Grounded {
                    value: Some(self.view_peripheral(p)),
                    tier: Tier::Verified,
                    citation: Some(self.cite(string_of(&path))),
                    note: "CMSIS-SVD structured source".to_owned(),
                }
            },
            None => {
                let mut note: Vec<char> = Vec::new();
                push_str(&mut note, "peripheral '");
                push_str(&mut note, peripheral);
                push_str(&mut note, "' not in structured source; not fabricated");
                assert(note@ =~= peripheral_miss(peripheral@));
                self.refuse(string_of(&note))
            },
        }
    }

    /// A single register (absolute address + fields), grounded the same way.
    pub fn lookup_register(&self, peripheral: &str, register: &str) -> (g: Grounded<RegisterView>)
        ensures
            match peripheral_index(self.device@.peripherals, peripheral@) {
                Some(i) => {
                    let p = self.device@.peripherals[i];
                    match register_index(p.registers, register@) {
                        Some(j) => {
                            let r = p.registers[j];
                            &&& g.value matches Some(v) && v@ == register_fact(p, r)
                            &&& g.tier == Tier::Verified
                            &&& citation_view(g.citation) == Some(
                                (
                                    self.source@,
                                    "device/peripherals/"@ + p.name + "/registers/"@ + r.name,
                                ),
                            )
                            &&& g.note@ == "CMSIS-SVD structured source"@
                        },
                        None => {
                            &&& g.value is None
                            &&& g.tier == Tier::OutOfScope
                            &&& g.citation is None
                            &&& g.note@ == register_miss(peripheral@, register@)
                        },
                    }
                },
                None => {
                    &&& g.value is None
                    &&& g.tier == Tier::OutOfScope
                    &&& g.citation is None
                    &&& g.note@ == peripheral_miss(peripheral@)
                },
            },
    {
        let ghost idx = peripheral_index(self.device@.peripherals, peripheral@);
        let p = match self.device.peripheral(peripheral) {
            Some(p) => p,
            None => {
                let mut note: Vec<char> = Vec::new();
                push_str(&mut note, "peripheral '");
                push_str(&mut note, peripheral);
                push_str(&mut note, "' not in structured source; not fabricated");
                assert(note@ =~= peripheral_miss(peripheral@));
                return self.refuse(string_of(&note));
            },
        };
        proof {
            let i = idx->0;
            crate::model::lemma_peripheral_index_bounds(self.device@.peripherals, peripheral@);
            assert(self.device@.peripherals[i] == self.device.peripherals@[i]@);
        }
        let ghost jdx = register_index(p@.registers, register@);
        match p.register(register) {
            Some(r) => {
                proof {
                    let j = jdx->0;
                    crate::model::lemma_register_index_bounds(p@.registers, register@);
                    assert(p@.registers[j] == p.registers@[j]@);
                }
                let mut path: Vec<char> = Vec::new();
                push_str(&mut path, "device/peripherals/");
                push_str(&mut path, p.name.as_str());
                push_str(&mut path, "/registers/");
                push_str(&mut path, r.name.as_str());
                Grounded {
                    value: Some(Self::register_view(p, r)),
                    tier: Tier::Verified,
                    citation: Some(self.cite(string_of(&path))),
                    note: "CMSIS-SVD structured source".to_owned(),
                }
            },
            None => {
                let mut note: Vec<char> = Vec::new();
                push_str(&mut note, "register '");
                push_str(&mut note, peripheral);
                push_str(&mut note, ".");
                push_str(&mut note, register);
                push_str(&mut note, "' not in structured source; not fabricated");
                assert(note@ =~= register_miss(peripheral@, register@));
                self.refuse(string_of(&note))
            },
        }
    }
}

} // verus!
