use kube_audit::units::{Cpu, Memory};

#[test]
fn saturating_sub_clamps_at_zero() {
    assert_eq!(Cpu(100).saturating_sub(Cpu(40)), Cpu(60));
    assert_eq!(Cpu(40).saturating_sub(Cpu(100)), Cpu(0));
    assert_eq!(Cpu(7).saturating_sub(Cpu(7)), Cpu(0));
    assert_eq!(Memory(1024).saturating_sub(Memory(24)), Memory(1000));
    assert_eq!(Memory(0).saturating_sub(Memory(1)), Memory(0));
}

#[test]
fn add_sums_and_saturates() {
    assert_eq!(Cpu(3).add(Cpu(4)), Cpu(7));
    assert_eq!(Memory(3).add(Memory(4)), Memory(7));
    assert_eq!(Cpu(u64::MAX).add(Cpu(1)), Cpu(u64::MAX));
}

#[test]
fn conversions() {
    assert_eq!(Cpu::from(150), Cpu(150));
    assert_eq!(Cpu(150).to_milliseconds(), 150);
    assert_eq!(Memory(2048).to_bytes(), 2048);
}

#[test]
fn cpu_text() {
    assert_eq!(Cpu(1500).to_text(), "1500m");
    assert_eq!(Cpu(0).to_text(), "0m");
}

#[test]
fn memory_text() {
    assert_eq!(Memory(512).to_text(), "512 B");
    assert_eq!(Memory(536_870_912).to_text(), "512.0 MiB");
    assert_eq!(Memory(1536).to_text(), "1.5 kiB");
}
