use pie_bakeoff::catalog::make_price_ordered;
use pie_bakeoff::keys::{purchases_key, remaining_key, user_blacklist_key};
use pie_bakeoff::pies::Pie;
use pie_bakeoff::recommend::unblocked_pies;
use pie_bakeoff::text::{append_decimal, parse_u64};

#[test]
fn formatted_numbers_read_back() {
    for n in [0u64, 9, 10, 99, 100, 4096, u64::MAX - 1, u64::MAX] {
        let mut s = String::new();
        append_decimal(&mut s, n);
        assert_eq!(parse_u64(&s), Some(n));
    }
}

#[test]
fn keys_never_collide() {
    let ids = [0u64, 1, 10, 12, 120];
    for a in ids {
        for b in ids {
            assert_eq!(remaining_key(a) == remaining_key(b), a == b);
            assert_eq!(purchases_key(a) == purchases_key(b), a == b);
            assert_ne!(remaining_key(a), purchases_key(b));
        }
        assert_ne!(remaining_key(a), user_blacklist_key("x"));
        assert_ne!(purchases_key(a), user_blacklist_key("pie-1-remaining"));
    }
    assert_ne!(user_blacklist_key("a"), user_blacklist_key("b"));
}

fn priced(id: u64, price: f64) -> Pie {
    Pie {
        id,
        name: String::new(),
        image_url: String::new(),
        price_per_slice_bits: price.to_bits(),
        slices: 1,
        labels: vec![],
    }
}

#[test]
fn price_order_is_idempotent() {
    let a = vec![priced(1, 1.0), priced(2, 2.0), priced(3, 1.0)];
    let once: Vec<u64> = make_price_ordered(&a).iter().map(|p| p.id).collect();
    let twice: Vec<u64> = make_price_ordered(&make_price_ordered(&a)).iter().map(|p| p.id).collect();
    assert_eq!(once, vec![2, 1, 3]);
    assert_eq!(once, twice);
}

#[test]
fn recommendable_pies_are_never_blacklisted() {
    let mut possible = bit_vec::BitVec::from_elem(10, true);
    possible.set(3, false);
    let blacklist = bit_vec::BitVec::from_bytes(&[0b1000_0001]);
    let r = unblocked_pies(possible.clone(), blacklist.clone());
    for (k, bit) in r.iter().enumerate() {
        if bit {
            assert!(possible.get(k).unwrap_or(false));
            assert!(!blacklist.get(k).unwrap_or(false));
        }
    }
    assert_eq!(r.len(), 10);
    assert_eq!(r.iter().filter(|b| *b).count(), 7);
}
