use pie_bakeoff::catalog::{
    label_bits, labels_contain, make_id_index, make_label_bitvec, make_price_ordered, price_rank,
};
use pie_bakeoff::pies::{copy_strings, purchases_from_counts, Pie};

fn sample_pie(id: u64, price: f64, labels: &[&str]) -> Pie {
    Pie {
        id,
        name: format!("pie {}", id),
        image_url: format!("http://example.com/{}.png", id),
        price_per_slice_bits: price.to_bits(),
        slices: 8,
        labels: labels.iter().map(|l| l.to_string()).collect(),
    }
}

fn bits_of(b: &bit_vec::BitVec) -> Vec<bool> {
    b.iter().collect()
}

#[test]
fn price_rank_orders_as_prices_do() {
    let prices = [-3.5f64, -1.0, -0.0, 0.0, 1e-300, 0.5, 2.0, 2.5, 1e300, f64::INFINITY];
    for a in prices {
        for b in prices {
            let (ra, rb) = (price_rank(a.to_bits()), price_rank(b.to_bits()));
            assert_eq!(a < b, ra < rb, "{} {}", a, b);
            assert_eq!(a == b, ra == rb, "{} {}", a, b);
        }
    }
    assert_eq!(price_rank(0.0f64.to_bits()), 1u64 << 63);
    assert_eq!(price_rank((-0.0f64).to_bits()), 1u64 << 63);
}

#[test]
fn price_order_is_dearest_first_and_stable() {
    let pies = vec![
        sample_pie(1, 2.0, &[]),
        sample_pie(2, 3.5, &[]),
        sample_pie(3, 2.0, &[]),
        sample_pie(4, 0.5, &[]),
        sample_pie(5, 3.5, &[]),
    ];
    let ordered = make_price_ordered(&pies);
    let ids: Vec<u64> = ordered.iter().map(|p| p.id).collect();
    assert_eq!(ids, vec![2, 5, 1, 3, 4]);
    assert_eq!(ordered[0].name, "pie 2");
    assert!(make_price_ordered(&vec![]).is_empty());
}

#[test]
fn price_order_treats_both_zeros_alike() {
    let pies = vec![sample_pie(1, -0.0, &[]), sample_pie(2, 0.0, &[]), sample_pie(3, -1.0, &[])];
    let ids: Vec<u64> = make_price_ordered(&pies).iter().map(|p| p.id).collect();
    assert_eq!(ids, vec![1, 2, 3]);
}

#[test]
fn id_index_keeps_the_last_pie_of_each_id() {
    let pies = vec![sample_pie(7, 1.0, &["a"]), sample_pie(9, 2.0, &[]), sample_pie(7, 3.0, &["b"])];
    let index = make_id_index(&pies);
    assert_eq!(index.len(), 2);
    let (p, pos) = &index[&7];
    assert_eq!(*pos, 2);
    assert_eq!(p.labels, vec!["b".to_string()]);
    assert_eq!(index[&9].1, 1);
    assert!(!index.contains_key(&8));
}

#[test]
fn label_bit_vectors_mark_the_pies_with_each_label() {
    let pies = vec![
        sample_pie(1, 1.0, &["apple", "vegan"]),
        sample_pie(2, 1.0, &["cherry"]),
        sample_pie(3, 1.0, &["apple", "apple"]),
    ];
    let labels = make_label_bitvec(&pies);
    assert_eq!(labels.len(), 3);
    assert_eq!(bits_of(labels.get("apple").unwrap()), vec![true, false, true]);
    assert_eq!(bits_of(labels.get("vegan").unwrap()), vec![true, false, false]);
    assert_eq!(bits_of(labels.get("cherry").unwrap()), vec![false, true, false]);
    assert!(labels.get("peach").is_none());
    assert!(labels.contains_key("cherry"));
    assert_eq!(bits_of(&label_bits(&pies, "peach")), vec![false, false, false]);
    assert_eq!(make_label_bitvec(&vec![]).len(), 0);
}

#[test]
fn label_lookup_and_copies() {
    let labels = vec!["a".to_string(), "bc".to_string()];
    assert!(labels_contain(&labels, "bc"));
    assert!(!labels_contain(&labels, "b"));
    assert_eq!(copy_strings(&labels), labels);
    let p = sample_pie(4, 2.25, &["x"]);
    let q = p.copy();
    assert_eq!(
        (q.id, q.name.as_str(), q.image_url.as_str(), q.price_per_slice_bits, q.slices, q.labels.clone()),
        (4, "pie 4", "http://example.com/4.png", 2.25f64.to_bits(), 8, vec!["x".to_string()])
    );
}

#[test]
fn purchases_come_one_per_user() {
    let ps = purchases_from_counts(vec![("ann".to_string(), 2), ("bo".to_string(), 1)]);
    assert_eq!(ps.len(), 2);
    assert_eq!((ps[0].username.as_str(), ps[0].slices), ("ann", 2));
    assert_eq!((ps[1].username.as_str(), ps[1].slices), ("bo", 1));
}

#[test]
fn pies_are_found_by_id() {
    let pies = vec![sample_pie(7, 1.0, &["a"]), sample_pie(9, 2.0, &[])];
    let index = make_id_index(&pies);
    let (p, i) = pie_bakeoff::catalog::find_pie(&index, 9).unwrap();
    assert_eq!((p.id, i), (9, 1));
    assert!(pie_bakeoff::catalog::find_pie(&index, 8).is_none());
}
