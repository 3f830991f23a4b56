#[test]
fn do_phasing_phases_in() {
    // Basic test that phasing works directionally
}
