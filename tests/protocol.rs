use distrand::{Error, Exchange, RevealError, RevealErrorKind, Secret};

const A: u64 = 1;
const B: u64 = 2;
const C: u64 = 3;

fn fresh(value: u64) -> Secret {
    let mut rng = rand::thread_rng();
    Secret::new(&mut rng, value)
}

fn copy(s: &Secret) -> Secret {
    Secret::from_bytes(&s.to_bytes()).unwrap()
}

#[test]
fn full_success_xors_values() {
    let (a, b) = (fresh(3), fresh(5));
    let mut exchange = Exchange::new();
    exchange.insert(A, a.commit().unwrap()).unwrap();
    exchange.insert(B, b.commit().unwrap()).unwrap();
    let mut reveal = exchange.into_reveal().unwrap();
    reveal.insert(A, a).unwrap();
    reveal.insert(B, b).unwrap();
    assert_eq!(reveal.get().ok(), Some(6));
}

#[test]
fn single_participant_gets_own_value() {
    let s = fresh(5);
    let mut exchange = Exchange::new();
    exchange.insert(7, s.commit().unwrap()).unwrap();
    let mut reveal = exchange.into_reveal().unwrap();
    reveal.insert(7, s).unwrap();
    assert_eq!(reveal.get().ok(), Some(5));
}

fn three_party_failures(c_reveal: Secret) -> Vec<(RevealErrorKind, u64)> {
    let (a, b, c) = (fresh(3), fresh(5), fresh(9));
    let mut exchange = Exchange::new();
    exchange.insert(A, a.commit().unwrap()).unwrap();
    exchange.insert(B, b.commit().unwrap()).unwrap();
    exchange.insert(C, c.commit().unwrap()).unwrap();
    let mut reveal = exchange.into_reveal().unwrap();
    reveal.insert(A, a).unwrap();
    reveal.insert(B, b).unwrap();
    reveal.insert(C, c_reveal).unwrap();
    match reveal.get() {
        Ok(v) => panic!("tampered reveal gave a value: {}", v),
        Err(e) => e.failed(),
    }
}

#[test]
fn tampered_value_is_reported() {
    let failed = three_party_failures(fresh(2));
    assert_eq!(failed, vec![(RevealErrorKind::ValidationFailed, C)]);
}

#[test]
fn tampered_key_is_reported() {
    let c = fresh(9);
    let mut bytes = c.to_bytes();
    bytes[8] ^= 1;
    let altered = Secret::from_bytes(&bytes).unwrap();
    assert_eq!(altered.value(), 9);
    let failed = three_party_failures(altered);
    assert_eq!(failed, vec![(RevealErrorKind::ValidationFailed, C)]);
}

#[test]
fn missing_secret_is_reported() {
    let (a, b) = (fresh(3), fresh(5));
    let mut exchange = Exchange::new();
    exchange.insert(A, a.commit().unwrap()).unwrap();
    exchange.insert(B, b.commit().unwrap()).unwrap();
    let mut reveal = exchange.into_reveal().unwrap();
    reveal.insert(A, a).unwrap();
    let failed = reveal.get().err().unwrap().failed();
    assert_eq!(failed, vec![(RevealErrorKind::MissingSecret, B)]);
}

#[test]
fn every_failure_is_reported_in_commit_order() {
    let (a, b, c) = (fresh(3), fresh(5), fresh(9));
    let mut exchange = Exchange::new();
    exchange.insert(A, a.commit().unwrap()).unwrap();
    exchange.insert(B, b.commit().unwrap()).unwrap();
    exchange.insert(C, c.commit().unwrap()).unwrap();
    let mut reveal = exchange.into_reveal().unwrap();
    reveal.insert(A, fresh(3)).unwrap();
    reveal.insert(B, b).unwrap();
    let failed = reveal.get().err().unwrap().failed();
    assert_eq!(
        failed,
        vec![
            (RevealErrorKind::ValidationFailed, A),
            (RevealErrorKind::MissingSecret, C),
        ]
    );
}

#[test]
fn duplicate_commit_is_refused() {
    let (a, other) = (fresh(3), fresh(4));
    let mut exchange = Exchange::new();
    exchange.insert(A, a.commit().unwrap()).unwrap();
    assert_eq!(exchange.insert(A, other.commit().unwrap()), Err(Error::AlreadyInserted));
    // the first commit is kept
    let mut reveal = exchange.into_reveal().unwrap();
    reveal.insert(A, a).unwrap();
    assert_eq!(reveal.get().ok(), Some(3));
}

#[test]
fn duplicate_secret_is_refused() {
    let a = fresh(3);
    let mut exchange = Exchange::new();
    exchange.insert(A, a.commit().unwrap()).unwrap();
    let mut reveal = exchange.into_reveal().unwrap();
    reveal.insert(A, copy(&a)).unwrap();
    assert_eq!(reveal.insert(A, fresh(8)), Err(Error::AlreadyInserted));
    // the first secret is kept
    assert_eq!(reveal.get().ok(), Some(3));
}

#[test]
fn secret_without_commit_is_refused() {
    let a = fresh(3);
    let mut exchange = Exchange::new();
    exchange.insert(A, a.commit().unwrap()).unwrap();
    let mut reveal = exchange.into_reveal().unwrap();
    assert_eq!(reveal.insert(B, fresh(5)), Err(Error::NotPresent));
    reveal.insert(A, a).unwrap();
    assert_eq!(reveal.get().ok(), Some(3));
}

#[test]
fn empty_exchange_cannot_reveal() {
    let exchange = Exchange::new();
    assert_eq!(exchange.into_reveal().err(), Some(Error::Empty));
}

#[test]
fn reveal_order_does_not_change_value() {
    let secrets = [fresh(3), fresh(5), fresh(9)];
    let ids = [A, B, C];
    let orders = [[0, 1, 2], [0, 2, 1], [1, 0, 2], [1, 2, 0], [2, 0, 1], [2, 1, 0]];
    for order in orders.iter() {
        let mut exchange = Exchange::new();
        for i in 0..3 {
            exchange.insert(ids[i], secrets[i].commit().unwrap()).unwrap();
        }
        let mut reveal = exchange.into_reveal().unwrap();
        for &i in order.iter() {
            reveal.insert(ids[i], copy(&secrets[i])).unwrap();
        }
        assert_eq!(reveal.get().ok(), Some(3 ^ 5 ^ 9));
    }
}

#[test]
fn reveal_error_lists_what_it_was_given() {
    let list = vec![
        (RevealErrorKind::MissingSecret, 4),
        (RevealErrorKind::ValidationFailed, 2),
    ];
    assert_eq!(RevealError::new(list.clone()).failed(), list);
}

#[test]
fn commit_order_does_not_change_value() {
    let secrets = [fresh(3), fresh(5), fresh(9)];
    let ids = [A, B, C];
    let orders = [[0, 1, 2], [2, 0, 1], [1, 2, 0]];
    for order in orders.iter() {
        let mut exchange = Exchange::new();
        for &i in order.iter() {
            exchange.insert(ids[i], secrets[i].commit().unwrap()).unwrap();
        }
        let mut reveal = exchange.into_reveal().unwrap();
        for i in 0..3 {
            reveal.insert(ids[i], copy(&secrets[i])).unwrap();
        }
        assert_eq!(reveal.get().ok(), Some(3 ^ 5 ^ 9));
    }
}
