use embeder::engine::{run_loop, LoopConfig, LoopState};
use embeder::fixtures::{FixtureCompileOracle, FixtureSimOracle};
use embeder::grounded::GroundedCodegen;
use embeder::provenance::ProvenanceEntry;
use embeder::query::DatasheetIndex;
use embeder::svd::parse_svd;
use embeder::tiers::Tier;

/// An STM32F4 excerpt: USART2 derives its registers from USART1, and the
/// fields use all three SVD bit encodings.
fn svd_text() -> &'static str {
    r#"<?xml version="1.0" encoding="utf-8"?>
<device schemaVersion="1.1">
  <name>STM32F407</name>
  <description>STM32F407 excerpt</description>
  <peripherals>
    <peripheral>
      <name>RCC</name>
      <baseAddress>0x40023800</baseAddress>
      <registers>
        <register>
          <name>AHB1ENR</name>
          <description>AHB1 peripheral clock enable</description>
          <addressOffset>0x30</addressOffset>
          <fields>
            <field><name>GPIOAEN</name><bitOffset>0</bitOffset><bitWidth>1</bitWidth></field>
          </fields>
        </register>
        <register>
          <name>APB1ENR</name>
          <addressOffset>0x40</addressOffset>
          <fields>
            <field><name>USART2EN</name><lsb>17</lsb><msb>17</msb></field>
          </fields>
        </register>
      </registers>
    </peripheral>
    <peripheral>
      <name>GPIOA</name>
      <baseAddress>0x40020000</baseAddress>
      <registers>
        <register><name>MODER</name><addressOffset>0x00</addressOffset></register>
        <register><name>ODR</name><addressOffset>0x14</addressOffset></register>
        <register>
          <name>AFRL</name>
          <addressOffset>0x20</addressOffset>
          <fields>
            <field><name>AFRL2</name><bitRange>[11:8]</bitRange></field>
          </fields>
        </register>
      </registers>
    </peripheral>
    <peripheral>
      <name>USART1</name>
      <baseAddress>0x40011000</baseAddress>
      <registers>
        <register>
          <name>SR</name>
          <addressOffset>0x00</addressOffset>
          <fields>
            <field><name>TXE</name><bitOffset>7</bitOffset><bitWidth>1</bitWidth></field>
          </fields>
        </register>
        <register><name>DR</name><addressOffset>0x04</addressOffset></register>
        <register><name>BRR</name><addressOffset>0x08</addressOffset></register>
        <register>
          <name>CR1</name>
          <addressOffset>0x0C</addressOffset>
          <fields>
            <field><name>UE</name><bitOffset>13</bitOffset><bitWidth>1</bitWidth></field>
            <field><name>TE</name><bitOffset>3</bitOffset><bitWidth>1</bitWidth></field>
          </fields>
        </register>
      </registers>
    </peripheral>
    <peripheral derivedFrom="USART1">
      <name>USART2</name>
      <baseAddress>0x40004400</baseAddress>
    </peripheral>
  </peripherals>
</device>
"#
}

fn index() -> DatasheetIndex {
    DatasheetIndex::from_svd_str(svd_text(), "stm32f4-mini.svd").expect("load svd")
}

#[test]
fn usart2_addresses_match_hardware() {
    let idx = index();
    let g = idx.register_map("USART2");
    assert_eq!(g.tier, Tier::Verified);
    assert!(g.citation.is_some(), "a grounded fact must carry a citation");

    let v = g.value.expect("USART2 present");
    assert_eq!(v.base_address, 0x4000_4400);
    let addr = |n: &str| v.registers.iter().find(|r| r.name == n).map(|r| r.absolute_address);
    assert_eq!(addr("SR"), Some(0x4000_4400));
    assert_eq!(addr("DR"), Some(0x4000_4404));
    assert_eq!(addr("BRR"), Some(0x4000_4408));
    assert_eq!(addr("CR1"), Some(0x4000_440C));
}

#[test]
fn usart2_cr1_fields_are_correct() {
    let idx = index();
    let r = idx.lookup_register("USART2", "CR1").value.expect("CR1 present");
    let bit = |n: &str| r.fields.iter().find(|f| f.name == n).map(|f| f.bit_offset);
    assert_eq!(bit("UE"), Some(13));
    assert_eq!(bit("TE"), Some(3));
}

#[test]
fn gpioa_and_rcc_cross_check_firmware() {
    let idx = index();

    let gpioa = idx.register_map("GPIOA").value.unwrap();
    let ga = |n: &str| gpioa.registers.iter().find(|r| r.name == n).map(|r| r.absolute_address);
    assert_eq!(ga("MODER"), Some(0x4002_0000));
    assert_eq!(ga("ODR"), Some(0x4002_0014));
    assert_eq!(ga("AFRL"), Some(0x4002_0020));

    let rcc = idx.register_map("RCC").value.unwrap();
    let ra = |n: &str| rcc.registers.iter().find(|r| r.name == n).map(|r| r.absolute_address);
    assert_eq!(ra("AHB1ENR"), Some(0x4002_3830));
    assert_eq!(ra("APB1ENR"), Some(0x4002_3840));
}

#[test]
fn unknown_peripheral_is_refused_not_fabricated() {
    let idx = index();
    let g = idx.register_map("DEFINITELY_NOT_A_PERIPHERAL");
    assert!(g.value.is_none(), "must not invent data");
    assert_eq!(g.tier, Tier::OutOfScope, "a miss is refused, not guessed");
    assert!(g.citation.is_none());
}

#[test]
fn lookups_are_case_insensitive() {
    let idx = index();
    assert!(idx.register_map("usart2").value.is_some());
    assert!(idx.lookup_register("Usart2", "cr1").value.is_some());
}

#[test]
fn synthesis_uses_svd_addresses_and_cites_them() {
    let idx = index();
    let cg = GroundedCodegen::new(&idx);
    let (src, cites) = cg.synthesize();

    assert!(src.contains("0x4000440c"), "generated code must use the grounded CR1 address");
    assert!(src.contains("Hello from Embeder"));
    assert!(cites.len() >= 9, "each grounded register should be cited");
    assert!(cites.iter().all(|c| c.source.ends_with(".svd")));
    assert!(cites.iter().any(|c| c.locator.contains("USART2/registers/CR1")));
}

#[test]
fn grounded_loop_verifies_and_carries_citations() {
    let idx = index();
    let mut cg = GroundedCodegen::new(&idx);
    let mut journal: Vec<ProvenanceEntry> = Vec::new();
    let o = run_loop(
        "grounded blink+uart",
        &mut cg,
        &FixtureCompileOracle,
        &FixtureSimOracle,
        &mut journal,
        &LoopConfig::default(),
    );
    assert!(matches!(o.state, LoopState::Verified));
    assert!(!o.citations.is_empty(), "a verified grounded outcome must carry its citations");
    assert!(o.provenance_ids.len() >= 4);
    assert_eq!(journal[0].tool, "ground");
}

#[test]
fn field_encodings_are_all_read() {
    let idx = index();
    let apb1 = idx.lookup_register("RCC", "APB1ENR").value.unwrap();
    assert_eq!(apb1.fields[0].bit_offset, 17);
    assert_eq!(apb1.fields[0].bit_width, 1);
    let afrl = idx.lookup_register("GPIOA", "AFRL").value.unwrap();
    assert_eq!(afrl.fields[0].bit_offset, 8);
    assert_eq!(afrl.fields[0].bit_width, 4);
}

#[test]
fn missing_register_is_refused_with_a_note() {
    let idx = index();
    let g = idx.lookup_register("USART2", "NOPE");
    assert!(g.value.is_none());
    assert_eq!(g.tier, Tier::OutOfScope);
    assert_eq!(g.note, "register 'USART2.NOPE' not in structured source; not fabricated");
    let p = idx.register_map("SPI5");
    assert_eq!(p.note, "peripheral 'SPI5' not in structured source; not fabricated");
}

#[test]
fn citations_point_into_the_svd() {
    let idx = index();
    let g = idx.lookup_register("usart2", "cr1");
    let c = g.citation.unwrap();
    assert_eq!(c.source, "stm32f4-mini.svd");
    assert_eq!(c.path, "device/peripherals/USART2/registers/CR1");
}

#[test]
fn svd_needs_a_device_root() {
    let e = parse_svd("<chip><name>X</name></chip>").err().unwrap();
    assert_eq!(e, "expected <device> root, found <chip>");
    assert!(parse_svd("<device>").is_err());
}

#[test]
fn grounding_brief_lists_each_cited_fact() {
    let idx = index();
    let cg = GroundedCodegen::new(&idx);
    let (brief, cites) = cg.grounding_brief();
    assert_eq!(cites.len(), 9);
    assert_eq!(brief.lines().count(), 9);
    assert!(brief.lines().next().unwrap().starts_with("- stm32f4-mini.svd::device/peripherals/RCC/registers/AHB1ENR"));
    assert!(brief.contains("USART2.CR1 @ 0x4000440c"));
}

#[test]
fn index_reports_whether_it_grounds_blink_uart() {
    assert!(index().grounds_blink_uart());
    let small = DatasheetIndex::from_svd_str("<device><name>X</name></device>", "x.svd").unwrap();
    assert!(!small.grounds_blink_uart());
}

#[test]
fn deeply_nested_document_is_read() {
    let mut xml = String::from("<device><name>Deep</name><vendorExtensions>");
    for _ in 0..100_000 {
        xml.push_str("<x>");
    }
    for _ in 0..100_000 {
        xml.push_str("</x>");
    }
    xml.push_str("</vendorExtensions><peripherals><peripheral><name>GPIOA</name>");
    xml.push_str("<baseAddress>0x40020000</baseAddress></peripheral></peripherals></device>");
    let d = parse_svd(&xml).ok().unwrap();
    assert_eq!(d.name, "Deep");
    assert_eq!(d.peripherals.len(), 1);
    assert_eq!(d.peripherals[0].base_address, 0x4002_0000);
}

#[test]
fn deeply_nested_foreign_root_is_named() {
    let mut xml = String::new();
    for _ in 0..100_000 {
        xml.push_str("<a>");
    }
    for _ in 0..100_000 {
        xml.push_str("</a>");
    }
    let e = parse_svd(&xml).err().unwrap();
    assert_eq!(e, "expected <device> root, found <a>");
}

#[test]
fn malformed_document_reports_the_parser_error() {
    let e = parse_svd("<device>").err().unwrap();
    assert!(e.starts_with("XML parse error: "));
    assert!(e.len() > "XML parse error: ".len());
}
