use pirates::noise::{generate, grad_entries, xorshift, LATTICE_WIDTH, TABLE_LEN};

#[test]
fn xorshift_known_values() {
    assert_eq!(xorshift(1), 0x42021);
    assert_eq!(xorshift(0xB00B5), 0x63AF87DB);
}

#[test]
fn generate_fills_whole_table() {
    let table = generate(0xB00B5);
    assert_eq!(table.len(), TABLE_LEN);
}

#[test]
fn generate_is_deterministic() {
    let first = generate(0xB00B5);
    let second = generate(0xB00B5);
    assert_eq!(first, second);
}

#[test]
fn generate_known_sequence() {
    let table = generate(0xB00B5);
    assert_eq!(table[0], 0x63AF87DB);
    assert_eq!(table[1], 0xF9C16051);
    assert_eq!(table[2], 0x6CAE7C34);
    assert_eq!(table[3], 0xC63D19A0);
    assert_eq!(table[4], 0xC42C4FA4);
    assert_eq!(table[511], 0x5A739967);
}

#[test]
fn generate_chains_xorshift() {
    let table = generate(12345);
    assert_eq!(table[0], xorshift(12345));
    for i in 0..TABLE_LEN - 1 {
        assert_eq!(table[i + 1], xorshift(table[i]));
    }
}

#[test]
fn generate_differs_across_seeds() {
    assert_ne!(generate(1), generate(2));
}

#[test]
fn grad_entries_reads_adjacent_cells() {
    let table = generate(7);
    let pair = grad_entries(&table, 17, 33);
    // (17 % 16) * 16 + (33 % 16) == 17
    assert_eq!(pair, (table[17], table[18]));
    let corner = grad_entries(&table, 15, 15);
    assert_eq!(corner, (table[255], table[256]));
    let origin = grad_entries(&table, 0, 0);
    assert_eq!(origin, (table[0], table[1]));
}

#[test]
fn grad_entries_wrap_lattice() {
    let table = generate(7);
    for x in 0..LATTICE_WIDTH {
        for y in 0..LATTICE_WIDTH {
            assert_eq!(
                grad_entries(&table, x, y),
                grad_entries(&table, x + LATTICE_WIDTH, y + 3 * LATTICE_WIDTH)
            );
        }
    }
}
