use list_runtime::bigint::Int;
use list_runtime::hooks::{
    get_long, get_slong, hook_LIST_cmp, hook_LIST_concat, hook_LIST_element, hook_LIST_eq,
    hook_LIST_get, hook_LIST_get_long, hook_LIST_in, hook_LIST_in_keys, hook_LIST_lookup, hook_LIST_make,
    hook_LIST_range, hook_LIST_range_long, hook_LIST_size, hook_LIST_size_long, hook_LIST_unit,
    hook_LIST_update, hook_LIST_updateAll, list_hash, size_list, IndexOutOfRange,
};
use list_runtime::list::{List, K};
use list_runtime::print::{print_steps, PrintStep};
use list_runtime::terms::{HandleTerms, TermOps};

/// Terms that are equal when their handles agree modulo ten, ordered and
/// hashed by that residue.
struct ModTen;

impl TermOps for ModTen {
    fn term_eq(&self, a: K, b: K) -> bool {
        self.eq(a, b)
    }

    fn term_cmp(&self, a: K, b: K) -> i64 {
        self.cmp(a, b)
    }

    fn term_hash(&self, a: K) -> u64 {
        self.hash(a)
    }

    fn eq(&self, a: K, b: K) -> bool {
        a % 10 == b % 10
    }

    fn cmp(&self, a: K, b: K) -> i64 {
        if a % 10 < b % 10 {
            -1
        } else if a % 10 == b % 10 {
            0
        } else {
            1
        }
    }

    fn hash(&self, a: K) -> u64 {
        a % 10
    }
}

fn list_of(items: &[K]) -> List {
    List::from_vec(items.to_vec())
}

#[test]
fn concat_reads_both_sides() {
    let a = list_of(&[1, 2, 3]);
    let b = list_of(&[7, 8]);
    let c = hook_LIST_concat(&a, &b);
    assert_eq!(c.to_vec(), vec![1, 2, 3, 7, 8]);
    for i in 0..3isize {
        assert_eq!(hook_LIST_get_long(&c, i), hook_LIST_get_long(&a, i));
    }
    for i in 3..5isize {
        assert_eq!(hook_LIST_get_long(&c, i), hook_LIST_get_long(&b, i - 3));
    }
    assert_eq!(a.to_vec(), vec![1, 2, 3]);
    assert_eq!(b.to_vec(), vec![7, 8]);
}

#[test]
fn update_touches_one_position() {
    let l = list_of(&[4, 5, 6]);
    let u = hook_LIST_update(&l, &Int::from_usize(1), 9).unwrap();
    assert_eq!(u.to_vec(), vec![4, 9, 6]);
    assert_eq!(hook_LIST_get_long(&u, 1), Ok(9));
    assert_eq!(hook_LIST_get_long(&u, 0), hook_LIST_get_long(&l, 0));
    assert_eq!(hook_LIST_get_long(&u, 2), hook_LIST_get_long(&l, 2));
    assert_eq!(l.to_vec(), vec![4, 5, 6]);
}

#[test]
fn splice_of_own_slice_is_identity() {
    let l = list_of(&[1, 2, 3, 4, 5]);
    let i = 1usize;
    let n = 3usize;
    let source = hook_LIST_range_long(&l, i, l.len() - i - n).unwrap();
    assert_eq!(source.to_vec(), vec![2, 3, 4]);
    let back = hook_LIST_updateAll(&l, &Int::from_usize(i), &source).unwrap();
    assert!(hook_LIST_eq(&back, &l, &HandleTerms));
}

#[test]
fn splice_in_the_middle() {
    let l = list_of(&[1, 2, 3, 4, 5]);
    let s = list_of(&[8, 9]);
    let r = hook_LIST_updateAll(&l, &Int::from_usize(2), &s).unwrap();
    assert_eq!(r.to_vec(), vec![1, 2, 8, 9, 5]);
    let r = hook_LIST_updateAll(&l, &Int::from_usize(3), &s).unwrap();
    assert_eq!(r.to_vec(), vec![1, 2, 3, 8, 9]);
    assert_eq!(hook_LIST_updateAll(&l, &Int::from_usize(4), &s).map(|x| x.to_vec()), Err(IndexOutOfRange));
}

#[test]
fn splice_at_zero_longer_than_target_fails() {
    let l = list_of(&[1]);
    let s = list_of(&[8, 9]);
    assert!(hook_LIST_updateAll(&l, &Int::from_usize(0), &s).is_err());
}

#[test]
fn empty_splice_anywhere_keeps_list() {
    let l = list_of(&[1, 2]);
    let e = hook_LIST_unit();
    for i in 0..5usize {
        let r = hook_LIST_updateAll(&l, &Int::from_usize(i), &e).unwrap();
        assert_eq!(r.to_vec(), vec![1, 2]);
    }
}

#[test]
fn equality_and_order_agree() {
    let a = list_of(&[1, 2]);
    let b = list_of(&[1, 2]);
    let c = list_of(&[1, 3]);
    let d = list_of(&[1]);
    assert!(hook_LIST_eq(&a, &a, &HandleTerms));
    assert!(hook_LIST_eq(&a, &b, &HandleTerms) && hook_LIST_eq(&b, &a, &HandleTerms));
    assert_eq!(hook_LIST_cmp(&a, &b, &HandleTerms), 0);
    assert_eq!(hook_LIST_cmp(&a, &c, &HandleTerms), -1);
    assert_eq!(hook_LIST_cmp(&c, &a, &HandleTerms), 1);
    assert_eq!(hook_LIST_cmp(&d, &a, &HandleTerms), -1);
    assert_eq!(hook_LIST_cmp(&a, &d, &HandleTerms), 1);
    assert_eq!(hook_LIST_cmp(&hook_LIST_unit(), &hook_LIST_unit(), &HandleTerms), 0);
    assert!(!hook_LIST_eq(&a, &c, &HandleTerms));
}

#[test]
fn equal_lists_hash_alike() {
    let a = list_of(&[5, 6, 7]);
    let b = hook_LIST_concat(&list_of(&[5]), &list_of(&[6, 7]));
    assert_eq!(list_hash(&a, &HandleTerms), list_hash(&b, &HandleTerms));
    assert_eq!(list_hash(&a, &HandleTerms), vec![5, 6, 7]);
    assert!(list_hash(&hook_LIST_unit(), &HandleTerms).is_empty());
    let c = list_of(&[15, 26, 37]);
    assert_eq!(list_hash(&c, &ModTen), list_hash(&a, &ModTen));
    assert_eq!(list_hash(&c, &ModTen), vec![5, 6, 7]);
}

#[test]
fn term_services_decide_equality_and_order() {
    let a = list_of(&[5, 6, 7]);
    let c = list_of(&[15, 26, 37]);
    assert!(!hook_LIST_eq(&a, &c, &HandleTerms));
    assert!(hook_LIST_eq(&a, &c, &ModTen));
    assert_eq!(hook_LIST_cmp(&a, &c, &ModTen), 0);
    assert_eq!(hook_LIST_cmp(&a, &c, &HandleTerms), -1);
    assert_eq!(hook_LIST_cmp(&list_of(&[9]), &list_of(&[11]), &ModTen), 1);
    assert!(hook_LIST_in(27, &a, &ModTen));
    assert!(!hook_LIST_in(27, &a, &HandleTerms));
    assert!(!hook_LIST_in(8, &a, &ModTen));
}

#[test]
fn slice_bounds() {
    let l = list_of(&[1, 2, 3]);
    assert_eq!(hook_LIST_range_long(&l, 0, 0).unwrap().to_vec(), vec![1, 2, 3]);
    assert_eq!(hook_LIST_range_long(&l, 3, 0).unwrap().len(), 0);
    assert_eq!(hook_LIST_range_long(&l, 1, 2).unwrap().len(), 0);
    assert_eq!(hook_LIST_range_long(&l, 1, 1).unwrap().to_vec(), vec![2]);
    assert!(hook_LIST_range_long(&l, 2, 2).is_err());
    assert!(hook_LIST_range_long(&l, usize::MAX, 1).is_err());
}

#[test]
fn singleton_scenario() {
    let l = hook_LIST_element(42);
    assert_eq!(hook_LIST_size_long(&l), 1);
    assert_eq!(hook_LIST_get(&l, &Int::from_usize(0)), Ok(42));
    assert_eq!(hook_LIST_get(&l, &Int::from_isize(-1)), Ok(42));
    assert_eq!(hook_LIST_lookup(&l, &Int::from_isize(-1)), Ok(42));
}

#[test]
fn singleton_outside_indices_fail() {
    let l = hook_LIST_element(42);
    for i in [1isize, 2, -2, -3, isize::MAX, isize::MIN] {
        assert_eq!(hook_LIST_get(&l, &Int::from_isize(i)), Err(IndexOutOfRange));
    }
    let huge = Int::from_limbs(false, vec![0, 1]);
    assert_eq!(hook_LIST_get(&l, &huge), Err(IndexOutOfRange));
}

#[test]
fn range_of_doubled_singleton() {
    let l = hook_LIST_element(3);
    let two = hook_LIST_concat(&l, &l);
    let r = hook_LIST_range(&two, &Int::from_usize(1), &Int::from_usize(0)).unwrap();
    assert_eq!(r.to_vec(), vec![3]);
    let r = hook_LIST_range(&two, &Int::from_usize(1), &Int::from_usize(1)).unwrap();
    assert_eq!(hook_LIST_size_long(&r), 0);
}

#[test]
fn negative_index_counts_from_end() {
    let l = list_of(&[10, 20, 30]);
    assert_eq!(hook_LIST_get_long(&l, -1), Ok(30));
    assert_eq!(hook_LIST_get_long(&l, -3), Ok(10));
    assert_eq!(hook_LIST_get_long(&l, -4), Err(IndexOutOfRange));
    assert_eq!(hook_LIST_get_long(&l, 3), Err(IndexOutOfRange));
}

#[test]
fn keys_never_fail() {
    let l = list_of(&[10, 20]);
    assert!(hook_LIST_in_keys(&Int::from_usize(1), &l));
    assert!(!hook_LIST_in_keys(&Int::from_usize(2), &l));
    assert!(!hook_LIST_in_keys(&Int::from_isize(-1), &l));
    assert!(!hook_LIST_in_keys(&Int::from_limbs(false, vec![5, 7]), &l));
}

#[test]
fn make_zero_and_many() {
    let e = hook_LIST_make(&Int::from_usize(0), 1).unwrap();
    assert_eq!(e.len(), 0);
    let m = hook_LIST_make(&Int::from_usize(3), 4).unwrap();
    assert_eq!(m.to_vec(), vec![4, 4, 4]);
    assert!(hook_LIST_make(&Int::from_limbs(false, vec![0, 1]), 4).is_err());
}

#[test]
fn size_as_integer() {
    let l = list_of(&[1, 2, 3, 4]);
    let s = hook_LIST_size(&l);
    assert_eq!(s.cmp_ui(4), 0);
    assert_eq!(s.cmp_ui(5), -1);
    assert_eq!(s.cmp_ui(3), 1);
    assert_eq!(get_long(&s), (true, 4));
}

#[test]
fn update_bounds() {
    let l = list_of(&[1, 2]);
    assert!(hook_LIST_update(&l, &Int::from_usize(2), 0).is_err());
    assert!(hook_LIST_update(&l, &Int::from_limbs(true, vec![1]), 0).is_err());
}

#[test]
fn integer_resolution() {
    assert_eq!(get_long(&Int::from_usize(usize::MAX)), (true, usize::MAX));
    assert_eq!(get_long(&Int::from_isize(-1)), (false, 0));
    assert_eq!(get_long(&Int::from_limbs(false, vec![3, 0, 0])), (true, 3));
    assert_eq!(get_long(&Int::from_limbs(false, vec![3, 1])), (false, 0));
    assert_eq!(get_slong(&Int::from_isize(isize::MIN)), (true, isize::MIN));
    assert_eq!(get_slong(&Int::from_isize(-5)), (true, -5));
    assert_eq!(get_slong(&Int::from_usize(isize::MAX as usize)), (true, isize::MAX));
    assert_eq!(get_slong(&Int::from_usize(isize::MAX as usize + 1)), (false, 0));
    assert_eq!(get_slong(&Int::from_limbs(true, vec![isize::MAX as usize + 2])), (false, 0));
    assert_eq!(get_slong(&Int::from_limbs(true, vec![0, 0])), (true, 0));
    assert!(Int::zero().fits_ulong());
    assert_eq!(Int::from_limbs(true, vec![0]).cmp_ui(0), 0);
    assert_eq!(Int::from_isize(-3).cmp_ui(0), -1);
}

#[test]
fn print_layout() {
    assert_eq!(print_steps(&hook_LIST_unit()), vec![PrintStep::Unit]);
    assert_eq!(
        print_steps(&list_of(&[7])),
        vec![PrintStep::OpenElement, PrintStep::Value(7), PrintStep::Close]
    );
    assert_eq!(
        print_steps(&list_of(&[1, 2, 3])),
        vec![
            PrintStep::OpenConcat,
            PrintStep::OpenConcat,
            PrintStep::OpenElement,
            PrintStep::Value(1),
            PrintStep::Close,
            PrintStep::Comma,
            PrintStep::OpenElement,
            PrintStep::Value(2),
            PrintStep::Close,
            PrintStep::Close,
            PrintStep::Comma,
            PrintStep::OpenElement,
            PrintStep::Value(3),
            PrintStep::Close,
            PrintStep::Close,
        ]
    );
}

#[test]
fn clone_shares_contents() {
    let l = list_of(&[1, 2]);
    let c = l.clone();
    assert!(c.equals(&HandleTerms, &l));
    assert!(size_list() > 0);
}
