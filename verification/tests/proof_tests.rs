use inkverify_core::digest::calculate_grid_hash;
use inkverify_core::{generate_grid_from_seed, prove_work, prove_work_sized, run_simulation};

const GOLDEN: &str = "75115aaa4024f4ec8bef5a23e0c57b2d8c62f2eef449526d9a7d71fb3514dee9";

#[test]
fn known_input_gives_the_known_digest() {
    let (_, digest) = prove_work_sized("Alice", "MySecretPass", 10, 10, 5);
    assert_eq!(digest, GOLDEN);
    assert_eq!(digest.len(), 64);
}

#[test]
fn known_input_gives_the_known_final_grid() {
    let (grid, _) = prove_work_sized("Alice", "MySecretPass", 10, 10, 5);
    let expected: [u8; 100] = [
        0, 0, 0, 0, 0, 0, 0, 1, 1, 1, //
        0, 0, 0, 0, 0, 0, 0, 1, 1, 1, //
        0, 0, 0, 0, 0, 0, 0, 0, 0, 0, //
        0, 0, 0, 0, 0, 0, 0, 0, 0, 0, //
        0, 0, 0, 1, 1, 0, 0, 0, 0, 0, //
        0, 0, 0, 0, 0, 1, 0, 0, 0, 0, //
        0, 1, 0, 0, 0, 0, 0, 0, 0, 0, //
        0, 0, 0, 0, 0, 1, 0, 0, 0, 1, //
        0, 1, 0, 0, 0, 0, 0, 0, 1, 0, //
        1, 0, 0, 0, 0, 0, 0, 1, 1, 0,
    ];
    assert_eq!(grid.width(), 10);
    assert_eq!(grid.height(), 10);
    assert_eq!(grid.as_raw(), &expected[..]);
}

#[test]
fn two_runs_agree() {
    let (first_grid, first_digest) = prove_work_sized("Alice", "MySecretPass", 24, 17, 30);
    let (second_grid, second_digest) = prove_work_sized("Alice", "MySecretPass", 24, 17, 30);
    assert_eq!(first_grid, second_grid);
    assert_eq!(first_grid.as_raw(), second_grid.as_raw());
    assert_eq!(first_digest, second_digest);
}

#[test]
fn proof_is_made_of_its_stages() {
    let initial = generate_grid_from_seed("Alice", "MySecretPass", 10, 10);
    let last = run_simulation(initial, 5);
    assert_eq!(calculate_grid_hash(&last), GOLDEN);
    let (grid, digest) = prove_work_sized("Alice", "MySecretPass", 10, 10, 5);
    assert_eq!(grid, last);
    assert_eq!(digest, calculate_grid_hash(&grid));
}

#[test]
fn digest_without_steps_is_that_of_the_initial_grid() {
    let (grid, digest) = prove_work_sized("Alice", "MySecretPass", 10, 10, 0);
    assert_eq!(grid, generate_grid_from_seed("Alice", "MySecretPass", 10, 10));
    assert_eq!(digest, "e536b29417ed6782c8d4442069dc78806ba0af5a88bb00c962edeeee738d6fcc");
}

#[test]
fn every_input_matters() {
    let digest_of = |u: &str, p: &str, w: usize, h: usize, s: usize| prove_work_sized(u, p, w, h, s).1;
    assert_eq!(
        digest_of("Bob", "MySecretPass", 10, 10, 5),
        "ae64b0d112465e951edd2ce3692195a5bb6dda9c5bfa7919b4784942fa9b37cc"
    );
    assert_eq!(
        digest_of("Alice", "MySecretPass", 10, 10, 6),
        "77c75c27ab1a1d9b8b8ee9bf1f2c82e7940dda7ac4cd989ebebb8b5574172d4d"
    );
    assert_eq!(
        digest_of("Alice", "MySecretPass", 10, 11, 5),
        "6a35d1824816b10c17049b0e15692751ee6a8d5107b436a061d79d208a317912"
    );
}

#[test]
fn width_and_height_are_not_interchangeable() {
    let (_, wide) = prove_work_sized("Alice", "MySecretPass", 20, 5, 5);
    let (_, tall) = prove_work_sized("Alice", "MySecretPass", 5, 20, 5);
    assert_eq!(wide, "dd110b0bc59a3ea5e8146f01a3a2c7974fe0bb867e9ca78d84b58f56438e02ca");
    assert_eq!(tall, "cb9e11bb625d2b9a0132aea0dd3797f36bfda69f9d9d0a2da22eaad11626c5e2");
}

#[test]
fn small_grids() {
    let (grid, digest) = prove_work_sized("user", "pass", 3, 1, 4);
    assert_eq!(grid.as_raw(), &[0u8, 0, 0][..]);
    assert_eq!(digest, "709e80c88487a2411e1ee4dfb9f22a861492d20c4765150c0c794abd70f8147c");
    let (grid, digest) = prove_work_sized("user", "pass", 0, 0, 3);
    assert!(grid.as_raw().is_empty());
    assert_eq!(digest, "e3b0c44298fc1c149afbf4c8996fb92427ae41e4649b934ca495991b7852b855");
}

#[test]
fn challenge_grid_without_steps() {
    assert_eq!(
        prove_work("Alice", "MySecretPass", 0),
        "9ccc8be8a161fa168507c6d5aedb7a2d03a2a94f852ff7844a491e750f7f0f75"
    );
}

#[test]
fn challenge_grid_after_two_steps() {
    assert_eq!(
        prove_work("Alice", "MySecretPass", 2),
        "2e5f4aba6b91d5e65e679de0023860c55cfaee917c191499d5ef32834fafed98"
    );
}

#[test]
fn challenge_grid_is_500_by_500() {
    let (grid, digest) = prove_work_sized("Alice", "MySecretPass", 500, 500, 1);
    assert_eq!(grid.as_raw().len(), 250_000);
    assert_eq!(digest, "7dfea58aefacca6ce5ba509df9679fa883350169990a36deb53de54e27651a07");
    assert_eq!(prove_work("Alice", "MySecretPass", 1), digest);
}
