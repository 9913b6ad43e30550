use anchor_lang::prelude::Pubkey;
use std::str::FromStr;
use swap::address::{derives, find};
use swap::state::seeds_of;
use swap::{Address, Escrow, EscrowRegistry};

fn program() -> Pubkey {
    Pubkey::from_str("H959Jtz2FKx71J2oFfJb1R7uGyuXBpgHZpp9cimtqX2c").unwrap()
}

fn address(key: &Pubkey) -> Address {
    Address { bytes: key.to_bytes() }
}

fn registry() -> EscrowRegistry {
    EscrowRegistry::new(address(&program()), address(&anchor_spl::token::ID))
}

#[test]
fn found_address_is_recreated_from_its_bump() {
    let program = Address { bytes: [7u8; 32] };
    let seeds: Vec<Vec<u8>> = vec![b"escrow".to_vec(), vec![1u8; 32], 1u64.to_le_bytes().to_vec()];
    let (found, bump) = find(&seeds, &program).expect("an address");
    let mut with_bump = seeds.clone();
    with_bump.push(vec![bump]);
    assert!(derives(&with_bump, &program, &found));
    assert!(!derives(&seeds, &program, &found));
    with_bump.pop();
    with_bump.push(vec![bump.wrapping_sub(1)]);
    assert!(!derives(&with_bump, &program, &found));
}

#[test]
fn find_agrees_with_the_program_address_search() {
    let program = Pubkey::new_from_array([9u8; 32]);
    let seeds: Vec<Vec<u8>> = vec![vec![1, 2, 3], vec![], vec![255u8; 32]];
    let expected = Pubkey::find_program_address(&[&[1, 2, 3], &[], &[255u8; 32]], &program);
    assert_eq!(find(&seeds, &address(&program)), Some((address(&expected.0), expected.1)));
}

#[test]
fn find_gives_nothing_for_seeds_out_of_bounds() {
    let program = Address { bytes: [9u8; 32] };
    assert_eq!(find(&vec![vec![0u8; 33]], &program), None);
    assert_eq!(find(&vec![vec![0u8]; 16], &program), None);
    assert!(find(&vec![vec![0u8]; 15], &program).is_some());
    assert!(!derives(&vec![vec![0u8; 33]], &program, &program));
}

#[test]
fn seeds_are_tag_maker_and_little_endian_seed() {
    let maker = Address { bytes: [3u8; 32] };
    assert_eq!(
        seeds_of(&maker, 0x0102_0304_0506_0708),
        vec![b"escrow".to_vec(), vec![3u8; 32], vec![8u8, 7, 6, 5, 4, 3, 2, 1]]
    );
}

#[test]
fn signing_seeds_end_with_the_bump() {
    let maker = Address { bytes: [3u8; 32] };
    let escrow = Escrow {
        seed: 1,
        maker,
        mint_a: Address { bytes: [4u8; 32] },
        mint_b: Address { bytes: [5u8; 32] },
        receive: 50,
        bump: 254,
    };
    let mut expected = seeds_of(&maker, 1);
    expected.push(vec![254u8]);
    assert_eq!(escrow.signing_seeds(), expected);
}

#[test]
fn derive_agrees_with_the_program_address_search() {
    let maker = Pubkey::new_from_array([11u8; 32]);
    let seed: u64 = 1;
    let expected =
        Pubkey::find_program_address(&[b"escrow", maker.as_ref(), &seed.to_le_bytes()], &program());
    let derived = registry().derive(&address(&maker), seed);
    assert_eq!(derived, Some((address(&expected.0), expected.1)));
    assert_ne!(derived.unwrap().0, address(&maker));
}

#[test]
fn derive_is_stable_and_tells_seeds_and_makers_apart() {
    let registry = registry();
    let maker = Address { bytes: [11u8; 32] };
    let other = Address { bytes: [12u8; 32] };
    let first = registry.derive(&maker, 1);
    assert!(first.is_some());
    assert_eq!(registry.derive(&maker, 1), first);
    assert_eq!(self::registry().derive(&maker, 1), first);
    assert_ne!(registry.derive(&maker, 2), first);
    assert_ne!(registry.derive(&other, 1), first);
    assert_ne!(registry.derive(&maker, u64::MAX), registry.derive(&maker, 0));
}

#[test]
fn derive_vault_agrees_with_the_associated_token_address() {
    let registry = registry();
    let maker = Address { bytes: [11u8; 32] };
    let mint = Pubkey::new_from_array([21u8; 32]);
    let (escrow, _) = registry.derive(&maker, 7).unwrap();
    let expected = anchor_spl::associated_token::get_associated_token_address_with_program_id(
        &Pubkey::new_from_array(escrow.bytes),
        &mint,
        &anchor_spl::token::ID,
    );
    assert_eq!(registry.derive_vault(&escrow, &address(&mint)), Some(address(&expected)));
    assert_eq!(
        registry.derive_vault(&escrow, &address(&mint)),
        registry.derive_vault(&escrow, &address(&mint))
    );
    assert_ne!(registry.derive_vault(&maker, &address(&mint)), Some(address(&expected)));
}

#[test]
fn registry_knows_its_programs() {
    let registry = registry();
    assert_eq!(registry.program_id(), address(&program()));
    assert_eq!(registry.token_program(), address(&anchor_spl::token::ID));
    assert_eq!(registry.associated_token_program(), address(&anchor_spl::associated_token::ID));
    assert_eq!(
        registry.associated_token_program().bytes,
        [
            140, 151, 37, 143, 78, 36, 137, 241, 187, 61, 16, 41, 20, 142, 13, 131, 11, 90, 19, 153,
            218, 255, 16, 132, 4, 142, 123, 216, 219, 233, 248, 89
        ]
    );
    assert_eq!(
        Pubkey::new_from_array(registry.associated_token_program().bytes).to_string(),
        "ATokenGPvbdGVxr1b2hvZbsiqW5xWH25efTNsLJA8knL"
    );
}

#[test]
fn addresses_compare_by_their_bytes() {
    let mut bytes = [5u8; 32];
    let a = Address { bytes };
    assert_eq!(a, Address { bytes });
    assert_eq!(a.to_vec(), vec![5u8; 32]);
    bytes[31] = 6;
    assert_ne!(a, Address { bytes });
    bytes[31] = 5;
    bytes[0] = 4;
    assert_ne!(a, Address { bytes });
}

#[test]
fn registry_creates_reads_and_destroys() {
    let mut registry = registry();
    let maker = Address { bytes: [11u8; 32] };
    let (at, bump) = registry.derive(&maker, 1).unwrap();
    let escrow = Escrow {
        seed: 1,
        maker,
        mint_a: Address { bytes: [4u8; 32] },
        mint_b: Address { bytes: [5u8; 32] },
        receive: 50,
        bump,
    };
    assert!(!registry.contains(&at));
    assert_eq!(registry.get(&at), None);
    assert!(registry.create(&at, escrow));
    assert!(registry.contains(&at));
    assert_eq!(registry.get(&at), Some(escrow));
    let mut second = escrow;
    second.receive = 51;
    assert!(!registry.create(&at, second));
    assert_eq!(registry.get(&at), Some(escrow));
    assert_eq!(registry.destroy(&at), Some(escrow));
    assert_eq!(registry.destroy(&at), None);
    assert!(!registry.contains(&at));
}
