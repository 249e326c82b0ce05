use risque::model::{
    FileResponse, MemoryRange, MemoryRangePayload, MemoryValueResponse, RegisterValueResponse,
    StepResponse,
};

#[test]
fn memory_value_keeps_its_parts() {
    let v = MemoryValueResponse::new(0x8000_0004, 0xdead_beef);
    assert_eq!(v.address, 0x8000_0004);
    assert_eq!(v.word, 0xdead_beef);
}

#[test]
fn register_value_keeps_its_parts() {
    let v = RegisterValueResponse::new("sp".to_string(), "0x0000000087ffffff".to_string());
    assert_eq!(v.key, "sp");
    assert_eq!(v.value, "0x0000000087ffffff");
}

#[test]
fn step_response_keeps_its_parts() {
    let v = StepResponse::new(0x8000_0004, 0x0050_0093, "Instruction executed.".to_string());
    assert_eq!(v.pc(), 0x8000_0004);
    assert_eq!(v.insn(), 0x0050_0093);
    assert_eq!(v.message(), "Instruction executed.");
}

#[test]
fn plain_records() {
    let f = FileResponse { name: "entry.S".to_string(), content: "nop".to_string() };
    assert_eq!(f.name, "entry.S");
    assert_eq!(f.content, "nop");
    let p = MemoryRangePayload { begin: 1, end: 2 };
    assert_eq!((p.begin, p.end), (1, 2));
    let r = MemoryRange { begin: "0x0".to_string(), end: "0x10".to_string() };
    assert_eq!(r.begin, "0x0");
    assert_eq!(r.end, "0x10");
    assert_eq!(
        format!("{:?}", p),
        "MemoryRangePayload { begin: 1, end: 2 }"
    );
}
