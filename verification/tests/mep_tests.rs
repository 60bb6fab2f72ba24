use mep::{Mep, MepError, Opcode};
use rand::rngs::StdRng;
use rand::Rng;
use rand::SeedableRng;
use std::cell::Cell;

fn next_draws(rng: &mut StdRng) -> Vec<u32> {
    (0..5).map(|_| rng.next_u32()).collect()
}

#[test]
fn mep_new() {
    let mut rng = StdRng::seed_from_u64(7);
    let instructions: Vec<u32> = (0..8).collect();
    let a: Mep<u32> = Mep::new(3, 3, 3, &mut rng, &instructions);

    let got: Vec<u32> = a.program.iter().map(|op| op.instruction).collect();
    assert_eq!(got, (0..8).collect::<Vec<_>>());
}

#[test]
fn mep_crossover() {
    let mut rng = StdRng::seed_from_u64(1234);
    let mut twin = StdRng::seed_from_u64(1234);
    let ins_a: Vec<u32> = (0..10).collect();
    let ins_b: Vec<u32> = (10..20).collect();
    let a = Mep::new(3, 2, 3, &mut rng, &ins_a);
    let b = Mep::new(3, 5, 9, &mut rng, &ins_b);
    // advance the twin source identically, but skip the mating below
    let _ = Mep::new(3, 2, 3, &mut twin, &ins_a);
    let _ = Mep::new(3, 5, 9, &mut twin, &ins_b);

    let c = Mep::mate((&a, &b), &mut rng).unwrap();
    // mating consumed randomness
    assert_ne!(next_draws(&mut rng), next_draws(&mut twin));

    assert_eq!(c.program.len(), 10);
    assert_eq!(c.inputs, 3);
    for k in 0..10 {
        assert!(c.program[k] == a.program[k] || c.program[k] == b.program[k]);
    }
    // at least one crossover point is drawn for ten shared operations, and
    // the payloads tell the parents apart, so the child cannot be the
    // first parent copied wholesale
    assert_ne!(c.program, a.program);
    assert!(2 <= c.unit_mutate_size && c.unit_mutate_size <= 5);
    assert!(3 <= c.crossover_points && c.crossover_points <= 9);
}

#[test]
fn seeded_operations_are_reproducible() {
    let instructions: Vec<u32> = (0..16).collect();
    let mut r1 = StdRng::seed_from_u64(99);
    let mut r2 = StdRng::seed_from_u64(99);

    let m1 = Mep::new(4, 2, 3, &mut r1, &instructions);
    let m2 = Mep::new(4, 2, 3, &mut r2, &instructions);
    assert_eq!(m1, m2);

    let c1 = Mep::mate((&m1, &m1), &mut r1).unwrap();
    let c2 = Mep::mate((&m2, &m2), &mut r2).unwrap();
    assert_eq!(c1, c2);

    let mut u1 = c1.clone();
    let mut u2 = c2.clone();
    u1.mutate(&mut r1, |i: u32| i.wrapping_add(1));
    u2.mutate(&mut r2, |i: u32| i.wrapping_add(1));
    assert_eq!(u1, u2);
}

#[test]
fn memoization_reduces_each_operation_once() {
    // One input; the second operation consumes the first one twice, and the
    // first one consumes the input twice.
    let g: Mep<u32> = Mep {
        program: vec![
            Opcode { instruction: 0, first: 0, second: 0 },
            Opcode { instruction: 0, first: 1, second: 1 },
        ],
        unit_mutate_size: 1,
        crossover_points: 1,
        inputs: 1,
    };
    let calls = Cell::new(0u32);
    let out = g
        .execute(&vec![10i64], 2, |_, x, y| {
            calls.set(calls.get() + 1);
            x + y
        })
        .unwrap();
    assert_eq!(out, vec![40, 20]);
    // one reduction per operation, despite the shared references
    assert_eq!(calls.get(), 2);
}

#[test]
fn evaluation_is_deterministic_and_pure() {
    let mut rng = StdRng::seed_from_u64(5);
    let instructions: Vec<u32> = (0..12).collect();
    let g = Mep::new(3, 2, 2, &mut rng, &instructions);
    let before = g.clone();
    let ins = vec![1i64, 2, 3];
    let reduce =
        |i: u32, x: i64, y: i64| x.wrapping_mul(2).wrapping_add(y).wrapping_add(i as i64);

    let out1 = g.execute(&ins, 12, reduce).unwrap();
    let out2 = g.execute(&ins, 12, reduce).unwrap();
    assert_eq!(out1, out2);
    assert_eq!(g, before);
}

#[test]
fn boundary_outputs_equal_length_succeeds() {
    // A chain over one input: each operation adds one to its predecessor.
    let g: Mep<u32> = Mep {
        program: vec![
            Opcode { instruction: 0, first: 0, second: 0 },
            Opcode { instruction: 0, first: 1, second: 0 },
            Opcode { instruction: 0, first: 2, second: 0 },
        ],
        unit_mutate_size: 1,
        crossover_points: 1,
        inputs: 1,
    };
    let out = g.execute(&vec![1i64], 3, |_, x, y| x + y).unwrap();
    // newest operation first, oldest last
    assert_eq!(out, vec![4, 3, 2]);
}

#[test]
fn boundary_too_many_outputs_fails() {
    let g: Mep<u32> = Mep {
        program: vec![Opcode { instruction: 0, first: 0, second: 0 }],
        unit_mutate_size: 1,
        crossover_points: 1,
        inputs: 1,
    };
    let r = g.execute(&vec![1i64], 2, |_, x, y| x + y);
    assert_eq!(r, Err(MepError::InsufficientOperations));
}

#[test]
fn mutation_parameter_floors_hold() {
    let mut rng = StdRng::seed_from_u64(11);
    let instructions: Vec<u32> = (0..6).collect();
    let mut g = Mep::new(2, 1, 1, &mut rng, &instructions);
    for _ in 0..200 {
        g.mutate(&mut rng, |i: u32| i.wrapping_add(1));
        assert!(g.unit_mutate_size >= 1);
        assert!(g.crossover_points >= 1);
        // the structure stays acyclic under mutation
        for (k, op) in g.program.iter().enumerate() {
            assert!(op.first < g.inputs + k);
            assert!(op.second < g.inputs + k);
        }
    }
}

#[test]
fn addition_scenario_sums_along_the_path() {
    // Three inputs [1, 2, 3] at addresses 0..3, four additions at 3..7:
    //   address 3 = in0 + in1 = 3
    //   address 4 = addr 3 + in2 = 6
    //   address 5 = addr 4 + in0 = 7
    //   address 6 = addr 5 + addr 4 = 13
    let g: Mep<u32> = Mep {
        program: vec![
            Opcode { instruction: 0, first: 0, second: 1 },
            Opcode { instruction: 0, first: 3, second: 2 },
            Opcode { instruction: 0, first: 4, second: 0 },
            Opcode { instruction: 0, first: 5, second: 4 },
        ],
        unit_mutate_size: 1,
        crossover_points: 1,
        inputs: 3,
    };
    let out = g.execute(&vec![1i64, 2, 3], 1, |_, x, y| x + y).unwrap();
    assert_eq!(out, vec![13]);
}

#[test]
fn mate_rejects_different_arities() {
    let mut rng = StdRng::seed_from_u64(2);
    let instructions: Vec<u32> = (0..5).collect();
    let a = Mep::new(2, 1, 1, &mut rng, &instructions);
    let b = Mep::new(3, 1, 1, &mut rng, &instructions);
    let r = Mep::mate((&a, &b), &mut rng);
    assert_eq!(r, Err(MepError::ArityMismatch));
}

#[test]
fn short_parents_cross_to_a_copy_of_the_first() {
    let mut rng = StdRng::seed_from_u64(21);
    let ins_a: Vec<u32> = (0..3).collect();
    let ins_b: Vec<u32> = (100..105).collect();
    let a = Mep::new(2, 1, 1, &mut rng, &ins_a);
    let b = Mep::new(2, 4, 4, &mut rng, &ins_b);
    let c = Mep::mate((&a, &b), &mut rng).unwrap();
    // with fewer than four shared operations no crossover point is drawn
    assert_eq!(c.program.len(), 3);
    for k in 0..3 {
        assert_eq!(c.program[k], a.program[k]);
    }
}

#[test]
fn empty_genome_evaluates_to_nothing() {
    let mut rng = StdRng::seed_from_u64(8);
    let none: Vec<u32> = Vec::new();
    let g = Mep::new(3, 1, 1, &mut rng, &none);
    assert_eq!(g.program.len(), 0);
    let out = g.execute(&vec![1i64, 2, 3], 0, |_, x, y| x + y).unwrap();
    assert!(out.is_empty());
    let r = g.execute(&vec![1i64, 2, 3], 1, |_, x, y| x + y);
    assert_eq!(r, Err(MepError::InsufficientOperations));
}

#[test]
fn construction_draws_vary() {
    let mut rng = StdRng::seed_from_u64(3);
    let instructions: Vec<u32> = (0..200).collect();
    let g = Mep::new(1, 1, 1, &mut rng, &instructions);
    // a real random source does not return the low end of every range
    assert!(g.program.iter().any(|op| op.first != 0 || op.second != 0));
    for (k, op) in g.program.iter().enumerate() {
        assert!(op.first < 1 + k);
        assert!(op.second < 1 + k);
    }
}
