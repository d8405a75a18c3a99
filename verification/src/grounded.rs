//! Grounded code generation: firmware whose register addresses and bit
//! positions are taken directly from the CMSIS-SVD (via grounded lookups),
//! with a citation for each fact used. The citations flow into the loop's
//! provenance.

use vstd::prelude::*;
use crate::engine::{Codegen, ContextView, LoopContext};
use crate::model::{peripheral_index, register_index, DeviceModel, FieldModel};
use crate::num::{dec_spec, hex_pad_spec, hex_spec, push_dec, push_hex, push_hex_pad};
use crate::oracle::{pairs_view, refs_view, source_line_spec, DraftView, FirmwareDraft, SourceRef, SourceRefView};
use crate::query::{register_fact, DatasheetIndex, RegisterFact, RegisterView};
use crate::text::{push_str, str_eq, string_of};

verus! {

/// The registers a blink+UART firmware is grounded on, in citation order.
pub open spec fn blink_registers() -> Seq<(Seq<char>, Seq<char>)> {
    seq![("RCC"@, "AHB1ENR"@), ("RCC"@, "APB1ENR"@), ("GPIOA"@, "MODER"@), ("GPIOA"@, "ODR"@), ("GPIOA"@, "AFRL"@), ("USART2"@, "SR"@), ("USART2"@, "DR"@), ("USART2"@, "BRR"@), ("USART2"@, "CR1"@)]
}

/// `d` holds register `r` of peripheral `p` (names compared ignoring ASCII case).
pub open spec fn grounds(d: DeviceModel, p: Seq<char>, r: Seq<char>) -> bool {
    match peripheral_index(d.peripherals, p) {
        Some(i) => register_index(d.peripherals[i].registers, r) is Some,
        None => false,
    }
}

/// `d` holds every register of [`blink_registers`].
pub open spec fn grounds_blink_uart(d: DeviceModel) -> bool {
    forall|k: int| 0 <= k < 9 ==> grounds(d, #[trigger] blink_registers()[k].0, blink_registers()[k].1)
}

/// The grounded fact for register `r` of peripheral `p`.
pub open spec fn fact_of(d: DeviceModel, p: Seq<char>, r: Seq<char>) -> RegisterFact {
    let pm = d.peripherals[peripheral_index(d.peripherals, p)->0];
    register_fact(pm, pm.registers[register_index(pm.registers, r)->0])
}

/// The grounded fact for the `k`-th register of [`blink_registers`].
pub open spec fn fact_at(d: DeviceModel, k: int) -> RegisterFact {
    fact_of(d, blink_registers()[k].0, blink_registers()[k].1)
}

/// The citation recorded for register `r` of peripheral `p`.
pub open spec fn cite_of(d: DeviceModel, source: Seq<char>, p: Seq<char>, r: Seq<char>) -> SourceRefView {
    let pm = d.peripherals[peripheral_index(d.peripherals, p)->0];
    let rm = pm.registers[register_index(pm.registers, r)->0];
    SourceRefView {
        source,
        locator: "device/peripherals/"@ + pm.name + "/registers/"@ + rm.name,
        summary: p + "."@ + r + " @ 0x"@ + hex_pad_spec(fact_of(d, p, r).absolute_address as nat, 8),
    }
}

/// The citations of a grounded blink+UART synthesis, one per register.
pub open spec fn blink_citations(d: DeviceModel, source: Seq<char>) -> Seq<SourceRefView> {
    Seq::new(9, |k: int| cite_of(d, source, blink_registers()[k].0, blink_registers()[k].1))
}

/// The bit offset of the first field named `name` (0 when there is none).
pub open spec fn bit_of(fields: Seq<FieldModel>, name: Seq<char>) -> u32
    decreases fields.len(),
{
    if fields.len() == 0 {
        0
    } else if fields[0].name == name {
        fields[0].bit_offset
    } else {
        bit_of(fields.drop_first(), name)
    }
}

/// `{:#x}`: `0x` and lower-case hex.
pub open spec fn hex_prefixed(n: nat) -> Seq<char> {
    "0x"@ + hex_spec(n)
}

/// The body of the synthesized firmware after its grounded definitions.
pub const SYNTH_BODY: &'static str = r#"
static void uart_putc(char c) { while (!(USART2_SR & TXE)) { } USART2_DR = (uint32_t)(uint8_t)c; }
static void uart_puts(const char *s) { while (*s) uart_putc(*s++); }

int main(void) {
    RCC_AHB1ENR |= GPIOAEN;
    RCC_APB1ENR |= USART2EN;
    GPIOA_MODER &= ~(3u << (5 * 2)); GPIOA_MODER |= (1u << (5 * 2)); /* PA5 output */
    GPIOA_MODER &= ~(3u << (2 * 2)); GPIOA_MODER |= (2u << (2 * 2)); /* PA2 AF mode */
    GPIOA_AFRL  &= ~(0xFu << (2 * 4)); GPIOA_AFRL |= (7u << (2 * 4)); /* PA2 AF7 */
    USART2_BRR = 0x8Bu;
    USART2_CR1 = UE | TE;
    for (int i = 0; i < 5; i++) {
        GPIOA_ODR ^= (1u << 5);
        uart_puts("Hello from Embeder\r\n");
        for (volatile int d = 0; d < 20000; d++) { }
    }
    while (1) { }
    return 0;
}
"#;

/// The synthesized firmware source.
pub open spec fn synth_source(d: DeviceModel, source: Seq<char>) -> Seq<char> {
    "#include <stdint.h>\n"@
        + "/* Synthesized by Embeder from grounded CMSIS-SVD facts (source: "@ + source + ") */\n"@
        + "#define REG(a) (*(volatile uint32_t *)(a))\n"@
        + "#define RCC_AHB1ENR REG("@ + hex_prefixed(fact_at(d, 0).absolute_address as nat) + "u)\n"@
        + "#define RCC_APB1ENR REG("@ + hex_prefixed(fact_at(d, 1).absolute_address as nat) + "u)\n"@
        + "#define GPIOA_MODER REG("@ + hex_prefixed(fact_at(d, 2).absolute_address as nat) + "u)\n"@
        + "#define GPIOA_ODR   REG("@ + hex_prefixed(fact_at(d, 3).absolute_address as nat) + "u)\n"@
        + "#define GPIOA_AFRL  REG("@ + hex_prefixed(fact_at(d, 4).absolute_address as nat) + "u)\n"@
        + "#define USART2_SR   REG("@ + hex_prefixed(fact_at(d, 5).absolute_address as nat) + "u)\n"@
        + "#define USART2_DR   REG("@ + hex_prefixed(fact_at(d, 6).absolute_address as nat) + "u)\n"@
        + "#define USART2_BRR  REG("@ + hex_prefixed(fact_at(d, 7).absolute_address as nat) + "u)\n"@
        + "#define USART2_CR1  REG("@ + hex_prefixed(fact_at(d, 8).absolute_address as nat) + "u)\n"@
        + "#define GPIOAEN  (1u<<"@ + dec_spec(bit_of(fact_at(d, 0).fields, "GPIOAEN"@) as nat) + ")\n"@
        + "#define USART2EN (1u<<"@ + dec_spec(bit_of(fact_at(d, 1).fields, "USART2EN"@) as nat) + ")\n"@
        + "#define TXE (1u<<"@ + dec_spec(bit_of(fact_at(d, 5).fields, "TXE"@) as nat) + ")\n"@
        + "#define UE  (1u<<"@ + dec_spec(bit_of(fact_at(d, 8).fields, "UE"@) as nat) + ")\n"@
        + "#define TE  (1u<<"@ + dec_spec(bit_of(fact_at(d, 8).fields, "TE"@) as nat) + ")\n"@
        + SYNTH_BODY@
}

pub struct GroundedCodegen<'a> {
    idx: &'a DatasheetIndex,
}

fn push_hex_prefixed(out: &mut Vec<char>, n: u64)
    ensures
        final(out)@ == old(out)@ + hex_prefixed(n as nat),
{
    let ghost start = out@;
    push_str(out, "0x");
    push_hex(out, n);
    assert(out@ =~= start + hex_prefixed(n as nat));
}

fn bit(fields: &Vec<crate::model::Field>, name: &str) -> (b: u32)
    ensures
        b == bit_of(crate::model::fields_view(fields@), name@),
{
    let ghost v = crate::model::fields_view(fields@);
    let mut i: usize = 0;
    assert(v.subrange(0, v.len() as int) =~= v);
    while i < fields.len()
        invariant
            i <= fields.len(),
            v == crate::model::fields_view(fields@),
            bit_of(v, name@) == bit_of(v.subrange(i as int, v.len() as int), name@),
        decreases fields.len() - i,
    {
        let ghost rest = v.subrange(i as int, v.len() as int);
        assert(rest[0] == fields@[i as int]@);
        if str_eq(fields[i].name.as_str(), name) {
            return fields[i].bit_offset;
        }
        assert(rest.drop_first() =~= v.subrange(i + 1, v.len() as int));
        i += 1;
    }
    0
}

impl DatasheetIndex {
    /// Whether this index holds every register a grounded blink+UART needs.
    pub fn grounds_blink_uart(&self) -> (b: bool)
        ensures
            b == grounds_blink_uart(self.device@),
    {
        let names: [(&str, &str); 9] = [
            ("RCC", "AHB1ENR"),
            ("RCC", "APB1ENR"),
            ("GPIOA", "MODER"),
            ("GPIOA", "ODR"),
            ("GPIOA", "AFRL"),
            ("USART2", "SR"),
            ("USART2", "DR"),
            ("USART2", "BRR"),
            ("USART2", "CR1"),
        ];
        let mut k: usize = 0;
        assert(names@.len() == 9);
        while k < 9
            invariant
                k <= 9,
                names@.len() == 9,
                forall|j: int| 0 <= j < 9 ==> (#[trigger] names@[j]).0@ == blink_registers()[j].0 && names@[j].1@ == blink_registers()[j].1,
                forall|j: int| 0 <= j < k ==> grounds(self.device@, #[trigger] blink_registers()[j].0, blink_registers()[j].1),
            decreases 9 - k,
        {
            let (p, r) = names[k];
            let g = self.lookup_register(p, r);
            if g.value.is_none() {
                return false;
            }
            k += 1;
        }
        true
    }
}

impl<'a> GroundedCodegen<'a> {
    #[verifier::type_invariant]
    spec fn grounded(self) -> bool {
        grounds_blink_uart(self.idx.device@)
    }

    /// A codegen grounded on `idx`, which must hold every register of
    /// [`blink_registers`].
    pub fn new(idx: &'a DatasheetIndex) -> (g: Self)
        requires
            grounds_blink_uart(idx.device@),
        ensures
            g.index() == idx,
    {
        GroundedCodegen { idx }
    }

    pub closed spec fn index(self) -> &'a DatasheetIndex {
        self.idx
    }

    /// Grounded lookup of one register: returns its view and records a citation.
    fn reg(&self, cites: &mut Vec<SourceRef>, peri: &str, reg: &str) -> (v: RegisterView)
        requires
            grounds(self.idx.device@, peri@, reg@),
        ensures
            v@ == fact_of(self.idx.device@, peri@, reg@),
            refs_view(final(cites)@) == refs_view(old(cites)@).push(
                cite_of(self.idx.device@, self.idx.source@, peri@, reg@),
            ),
    {
        let g = self.idx.lookup_register(peri, reg);
        proof {
            crate::model::lemma_peripheral_index_bounds(self.idx.device@.peripherals, peri@);
        }
        let v = match g.value {
            Some(v) => v,
            None => {
                proof {
                    assert(false);
                }
                return RegisterView {
                    name: String::new(),
                    offset: 0,
                    absolute_address: 0,
                    description: None,
                    fields: Vec::new(),
                };
            },
        };
        let c = match g.citation {
            Some(c) => c,
            None => {
                proof {
                    assert(false);
                }
                return v;
            },
        };
        let mut summary: Vec<char> = Vec::new();
        push_str(&mut summary, peri);
        push_str(&mut summary, ".");
        push_str(&mut summary, reg);
        push_str(&mut summary, " @ 0x");
        push_hex_pad(&mut summary, v.absolute_address, 8);
        let s = SourceRef::new(c.source.as_str(), c.path.as_str(), string_of(&summary).as_str());
        let ghost before = refs_view(cites@);
        cites.push(s);
        proof {
            assert(s@ =~= cite_of(self.idx.device@, self.idx.source@, peri@, reg@));
            assert(refs_view(cites@) =~= before.push(s@));
        }
        v
    }

    /// Synthesize the firmware source and the citations it is grounded on.
    pub fn synthesize(&self) -> (r: (String, Vec<SourceRef>))
        ensures
            r.0@ == synth_source(self.index().device@, self.index().source@),
            refs_view(r.1@) == blink_citations(self.index().device@, self.index().source@),
    {
        proof {
            use_type_invariant(self);
            assert(grounds(self.idx.device@, blink_registers()[0].0, blink_registers()[0].1));
            assert(grounds(self.idx.device@, blink_registers()[1].0, blink_registers()[1].1));
            assert(grounds(self.idx.device@, blink_registers()[2].0, blink_registers()[2].1));
            assert(grounds(self.idx.device@, blink_registers()[3].0, blink_registers()[3].1));
            assert(grounds(self.idx.device@, blink_registers()[4].0, blink_registers()[4].1));
            assert(grounds(self.idx.device@, blink_registers()[5].0, blink_registers()[5].1));
            assert(grounds(self.idx.device@, blink_registers()[6].0, blink_registers()[6].1));
            assert(grounds(self.idx.device@, blink_registers()[7].0, blink_registers()[7].1));
            assert(grounds(self.idx.device@, blink_registers()[8].0, blink_registers()[8].1));
        }
        let mut cites: Vec<SourceRef> = Vec::new();
        let ahb1 = self.reg(&mut cites, "RCC", "AHB1ENR");
        let apb1 = self.reg(&mut cites, "RCC", "APB1ENR");
        let moder = self.reg(&mut cites, "GPIOA", "MODER");
        let odr = self.reg(&mut cites, "GPIOA", "ODR");
        let afrl = self.reg(&mut cites, "GPIOA", "AFRL");
        let sr = self.reg(&mut cites, "USART2", "SR");
        let dr = self.reg(&mut cites, "USART2", "DR");
        let brr = self.reg(&mut cites, "USART2", "BRR");
        let cr1 = self.reg(&mut cites, "USART2", "CR1");
        let gpioaen = bit(&ahb1.fields, "GPIOAEN");
        let usart2en = bit(&apb1.fields, "USART2EN");
        let txe = bit(&sr.fields, "TXE");
        let ue = bit(&cr1.fields, "UE");
        let te = bit(&cr1.fields, "TE");

        let mut out: Vec<char> = Vec::new();
        push_str(&mut out, "#include <stdint.h>\n");
        push_str(&mut out, "/* Synthesized by Embeder from grounded CMSIS-SVD facts (source: ");
        push_str(&mut out, self.idx.source.as_str());
        push_str(&mut out, ") */\n");
        push_str(&mut out, "#define REG(a) (*(volatile uint32_t *)(a))\n");
        push_str(&mut out, "#define RCC_AHB1ENR REG(");
        push_hex_prefixed(&mut out, ahb1.absolute_address);
        push_str(&mut out, "u)\n");
        push_str(&mut out, "#define RCC_APB1ENR REG(");
        push_hex_prefixed(&mut out, apb1.absolute_address);
        push_str(&mut out, "u)\n");
        push_str(&mut out, "#define GPIOA_MODER REG(");
        push_hex_prefixed(&mut out, moder.absolute_address);
        push_str(&mut out, "u)\n");
        push_str(&mut out, "#define GPIOA_ODR   REG(");
        push_hex_prefixed(&mut out, odr.absolute_address);
        push_str(&mut out, "u)\n");
        push_str(&mut out, "#define GPIOA_AFRL  REG(");
        push_hex_prefixed(&mut out, afrl.absolute_address);
        push_str(&mut out, "u)\n");
        push_str(&mut out, "#define USART2_SR   REG(");
        push_hex_prefixed(&mut out, sr.absolute_address);
        push_str(&mut out, "u)\n");
        push_str(&mut out, "#define USART2_DR   REG(");
        push_hex_prefixed(&mut out, dr.absolute_address);
        push_str(&mut out, "u)\n");
        push_str(&mut out, "#define USART2_BRR  REG(");
        push_hex_prefixed(&mut out, brr.absolute_address);
        push_str(&mut out, "u)\n");
        push_str(&mut out, "#define USART2_CR1  REG(");
        push_hex_prefixed(&mut out, cr1.absolute_address);
        push_str(&mut out, "u)\n");
        push_str(&mut out, "#define GPIOAEN  (1u<<");
        push_dec(&mut out, gpioaen as u64);
        push_str(&mut out, ")\n");
        push_str(&mut out, "#define USART2EN (1u<<");
        push_dec(&mut out, usart2en as u64);
        push_str(&mut out, ")\n");
        push_str(&mut out, "#define TXE (1u<<");
        push_dec(&mut out, txe as u64);
        push_str(&mut out, ")\n");
        push_str(&mut out, "#define UE  (1u<<");
        push_dec(&mut out, ue as u64);
        push_str(&mut out, ")\n");
        push_str(&mut out, "#define TE  (1u<<");
        push_dec(&mut out, te as u64);
        push_str(&mut out, ")\n");
        push_str(&mut out, SYNTH_BODY);
        proof {
            assert(refs_view(cites@) =~= blink_citations(self.idx.device@, self.idx.source@));
            assert(out@ =~= synth_source(self.idx.device@, self.idx.source@));
        }
        (string_of(&out), cites)
    }
}

/// The grounding brief handed to a model: one line per cited fact.
pub open spec fn brief_spec(cites: Seq<SourceRefView>) -> Seq<char>
    decreases cites.len(),
{
    if cites.len() == 0 {
        Seq::empty()
    } else {
        brief_spec(cites.drop_last()) + "- "@ + source_line_spec(cites.last()) + "\n"@
    }
}

impl<'a> GroundedCodegen<'a> {
    /// The facts a model must build on: a brief with one line per grounded
    /// register, and the citations behind it.
    pub fn grounding_brief(&self) -> (r: (String, Vec<SourceRef>))
        ensures
            refs_view(r.1@) == blink_citations(self.index().device@, self.index().source@),
            r.0@ == brief_spec(blink_citations(self.index().device@, self.index().source@)),
    {
        let (_, cites) = self.synthesize();
        let ghost cs = refs_view(cites@);
        let mut out: Vec<char> = Vec::new();
        let mut i: usize = 0;
        assert(cs.subrange(0, 0) =~= Seq::<SourceRefView>::empty());
        while i < cites.len()
            invariant
                i <= cites.len(),
                cs == refs_view(cites@),
                out@ == brief_spec(cs.subrange(0, i as int)),
            decreases cites.len() - i,
        {
            let ghost nxt = cs.subrange(0, i + 1);
            assert(nxt.drop_last() =~= cs.subrange(0, i as int));
            assert(nxt.last() == cites@[i as int]@);
            push_str(&mut out, "- ");
            let line = cites[i].as_line();
            push_str(&mut out, line.as_str());
            push_str(&mut out, "\n");
            assert(out@ =~= brief_spec(nxt));
            i += 1;
        }
        assert(cs.subrange(0, cites.len() as int) =~= cs);
        (string_of(&out), cites)
    }
}

/// The draft grounded synthesis hands the loop: the synthesized `main.c` for
/// the STM32F4 Discovery, cited with every register it was built on.
pub open spec fn grounded_draft(d: DeviceModel, source: Seq<char>) -> DraftView {
    DraftView {
        target: "stm32f4-discovery"@,
        entry: "main.c"@,
        files: seq![("main.c"@, synth_source(d, source))],
        citations: blink_citations(d, source),
    }
}

impl<'a> Codegen for GroundedCodegen<'a> {
    open spec fn drafts(&self, ctx: ContextView, d: DraftView) -> bool {
        d == grounded_draft(self.index().device@, self.index().source@)
    }

    fn generate(&mut self, _ctx: &LoopContext) -> (r: FirmwareDraft)
        ensures
            r@ == grounded_draft(final(self).index().device@, final(self).index().source@),
            final(self).index() == old(self).index(),
    {
        let (src, cites) = self.synthesize();
        let files = vec![("main.c".to_owned(), src)];
        let r = FirmwareDraft::new("stm32f4-discovery", "main.c", files).with_citations(cites);
        assert(pairs_view(r.files@) =~= seq![("main.c"@, synth_source(self.index().device@, self.index().source@))]);
        assert(r@ =~= grounded_draft(self.index().device@, self.index().source@));
        r
    }
}

} // verus!
