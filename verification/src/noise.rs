//! Seeded lattice-noise table: a 32-bit xorshift generator fills a fixed
//! table of 512 values, and each lattice corner is later mapped to a pair
//! of adjacent table entries that seed its gradient.
use vstd::prelude::*;

verus! {

/// Number of entries in a noise lattice table.
pub const TABLE_LEN: usize = 512;

/// Width of the gradient lattice; a corner's coordinates are taken modulo
/// this value on each axis before indexing the table.
pub const LATTICE_WIDTH: usize = 16;

/// One application of the 32-bit xorshift transform.
pub open spec fn xorshift_spec(state: u32) -> u32 {
    let a = state ^ (state << 13u32);
    let b = a ^ (a >> 17u32);
    b ^ (b << 5u32)
}

/// The table entry at position `i` of the table generated from `seed`:
/// the xorshift transform applied `i + 1` times to the seed.
pub open spec fn table_entry(seed: u32, i: int) -> u32
    decreases i,
{
    if i <= 0 {
        xorshift_spec(seed)
    } else {
        xorshift_spec(table_entry(seed, i - 1))
    }
}

/// Advances the pseudo-random state by one xorshift step.
pub fn xorshift(state: u32) -> (next: u32)
    ensures
        next == xorshift_spec(state),
{
    let a = state ^ (state << 13u32);
    let b = a ^ (a >> 17u32);
    b ^ (b << 5u32)
}

/// Fills the lattice table from `seed`, each output of the xorshift
/// transform becoming the next state.
pub fn generate(seed: u32) -> (table: Vec<u32>)
    ensures
        table@.len() == TABLE_LEN,
        forall|i: int| 0 <= i < TABLE_LEN ==> table@[i] == table_entry(seed, i),
{
    let mut table: Vec<u32> = Vec::new();
    let mut state: u32 = seed;
    while table.len() < TABLE_LEN
        invariant
            table@.len() <= TABLE_LEN,
            state == if table@.len() == 0 { seed } else { table_entry(seed, table@.len() - 1) },
            forall|i: int| 0 <= i < table@.len() ==> table@[i] == table_entry(seed, i),
        decreases TABLE_LEN - table@.len(),
    {
        state = xorshift(state);
        table.push(state);
    }
    table
}

/// Law: table generation is deterministic. Any two tables whose entries
/// satisfy `generate`'s contract for the same seed are equal.
pub proof fn lemma_generate_deterministic(seed: u32, a: Seq<u32>, b: Seq<u32>)
    requires
        a.len() == TABLE_LEN,
        b.len() == TABLE_LEN,
        forall|i: int| 0 <= i < TABLE_LEN ==> a[i] == table_entry(seed, i),
        forall|i: int| 0 <= i < TABLE_LEN ==> b[i] == table_entry(seed, i),
    ensures
        a == b,
{
    assert(a =~= b);
}

/// Table index of the gradient seed for the lattice corner `(x, y)`.
pub open spec fn grad_index(x: int, y: int) -> int {
    (x % (LATTICE_WIDTH as int)) * (LATTICE_WIDTH as int) + (y % (LATTICE_WIDTH as int))
}

/// The two adjacent table entries that seed the gradient at the lattice
/// corner `(x, y)`; the second index wraps around the end of the table.
pub fn grad_entries(table: &Vec<u32>, x: usize, y: usize) -> (pair: (u32, u32))
    requires
        table@.len() == TABLE_LEN,
    ensures
        pair.0 == table@[grad_index(x as int, y as int)],
        pair.1 == table@[(grad_index(x as int, y as int) + 1) % (TABLE_LEN as int)],
{
    let xi = x % LATTICE_WIDTH;
    let yi = y % LATTICE_WIDTH;
    let first = table[xi * LATTICE_WIDTH + yi];
    let second = table[(xi * LATTICE_WIDTH + yi + 1) % TABLE_LEN];
    (first, second)
}

} // verus!
