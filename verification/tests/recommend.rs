use bit_vec::BitVec;
use pie_bakeoff::catalog::{make_label_bitvec, LabelBits};
use pie_bakeoff::pies::Pie;
use pie_bakeoff::recommend::{
    blacklist_bits, flatten_bv, pad_shorter_bv, recommendation_candidates, unblocked_pies,
};

fn labelled_pie(id: u64, labels: &[&str]) -> Pie {
    Pie {
        id,
        name: String::new(),
        image_url: String::new(),
        price_per_slice_bits: 1.0f64.to_bits(),
        slices: 8,
        labels: labels.iter().map(|l| l.to_string()).collect(),
    }
}

fn bits(v: &[bool]) -> BitVec {
    let mut b = BitVec::from_elem(v.len(), false);
    for (i, x) in v.iter().enumerate() {
        b.set(i, *x);
    }
    b
}

fn strings(v: &[&str]) -> Vec<String> {
    v.iter().map(|s| s.to_string()).collect()
}

fn catalogue() -> LabelBits {
    make_label_bitvec(&vec![
        labelled_pie(1, &["apple", "vegan"]),
        labelled_pie(2, &["apple"]),
        labelled_pie(3, &["vegan", "nutty"]),
        labelled_pie(4, &["apple", "vegan", "nutty"]),
    ])
}

#[test]
fn flatten_intersects_the_requested_labels() {
    let labels = catalogue();
    let all: Vec<bool> = flatten_bv(&strings(&["apple", "vegan"]), &labels).iter().collect();
    assert_eq!(all, vec![true, false, false, true]);
    let one: Vec<bool> = flatten_bv(&strings(&["nutty"]), &labels).iter().collect();
    assert_eq!(one, vec![false, false, true, true]);
}

#[test]
fn flatten_gives_one_false_bit_for_unknown_or_no_labels() {
    let labels = catalogue();
    let unknown: Vec<bool> = flatten_bv(&strings(&["apple", "peach"]), &labels).iter().collect();
    assert_eq!(unknown, vec![false]);
    let none: Vec<bool> = flatten_bv(&strings(&[]), &labels).iter().collect();
    assert_eq!(none, vec![false]);
}

#[test]
fn candidates_are_none_when_no_pie_fits() {
    let labels = catalogue();
    assert!(recommendation_candidates(&strings(&["peach"]), &labels).is_none());
    assert!(recommendation_candidates(&strings(&["nutty", "apple"]), &labels).is_some());
    let mut only_two = LabelBits::new();
    only_two.insert("x".to_string(), bits(&[false, false]));
    assert!(recommendation_candidates(&strings(&["x"]), &only_two).is_none());
}

#[test]
fn padding_grows_the_shorter_vector_with_false() {
    let mut a = bits(&[true, true, true]);
    let mut b = bits(&[true]);
    pad_shorter_bv(&mut a, &mut b);
    assert_eq!(a.iter().collect::<Vec<_>>(), vec![true, true, true]);
    assert_eq!(b.iter().collect::<Vec<_>>(), vec![true, false, false]);
    let mut c = bits(&[]);
    let mut d = bits(&[true, false]);
    pad_shorter_bv(&mut c, &mut d);
    assert_eq!(c.iter().collect::<Vec<_>>(), vec![false, false]);
    assert_eq!(d.iter().collect::<Vec<_>>(), vec![true, false]);
}

#[test]
fn blacklist_bits_are_most_significant_first() {
    let b = blacklist_bits(&[0b1010_0000, 0b0000_0001]);
    let expected = vec![
        true, false, true, false, false, false, false, false, false, false, false, false, false,
        false, false, true,
    ];
    assert_eq!(b.iter().collect::<Vec<_>>(), expected);
    assert_eq!(blacklist_bits(&[]).len(), 0);
}

#[test]
fn unblocked_pies_drop_the_blacklisted_ones() {
    let possible = bits(&[true, true, false, true]);
    let blacklist = blacklist_bits(&[0b0100_0000]);
    let r: Vec<bool> = unblocked_pies(possible, blacklist).iter().collect();
    assert_eq!(r, vec![true, false, false, true, false, false, false, false]);
    let r2: Vec<bool> = unblocked_pies(bits(&[true, true]), bits(&[])).iter().collect();
    assert_eq!(r2, vec![true, true]);
}

#[test]
fn flatten_ignores_label_order_and_repetition() {
    let labels = catalogue();
    let a: Vec<bool> = flatten_bv(&strings(&["apple", "vegan"]), &labels).iter().collect();
    let b: Vec<bool> = flatten_bv(&strings(&["vegan", "apple", "vegan"]), &labels).iter().collect();
    assert_eq!(a, b);
}
