use static_matrix::{GemmArgs, Matrix, StaticCowVec};

#[test]
fn zero() {
    let m = Matrix::<f32, 2, 2, 4>::zeros();
    let n = Matrix::<f32, 2, 2, 4>::from_array([0.; 4]);
    assert!(*m.index([0, 0]) == 0.);
    assert!(m.as_vec().as_slice() == n.as_vec().as_slice());
}

#[test]
fn zeros_every_entry_is_zero() {
    let m = Matrix::<i64, 3, 4, 12>::zeros();
    assert!(m.is_owned());
    for r in 0..3 {
        for c in 0..4 {
            assert_eq!(*m.index([r, c]), 0);
        }
    }
}

#[test]
fn index_follows_column_major_layout() {
    let data = [1, 2, 3, 4, 5, 6];
    let m = Matrix::<i32, 3, 2, 6>::from_ref(&data);
    assert_eq!(*m.index([0, 0]), 1);
    assert_eq!(*m.index([1, 0]), 2);
    assert_eq!(*m.index([2, 0]), 3);
    assert_eq!(*m.index([0, 1]), 4);
    assert_eq!(*m.index([2, 1]), 6);
    assert_eq!(*m.get_unchecked([1, 1]), 5);
}

#[test]
fn flat_buffer_round_trip() {
    let data = [10u8, 11, 12, 13, 14, 15, 16, 17, 18, 19, 20, 21];
    let m = Matrix::<u8, 4, 3, 12>::from_array(data);
    for i in 0..12 {
        assert_eq!(*m.index([i % 4, i / 4]), data[i]);
    }
    assert_eq!(m.as_vec().to_array(), data);
}

#[test]
fn get_out_of_range_is_none() {
    let m = Matrix::<i32, 2, 3, 6>::from_array([1, 2, 3, 4, 5, 6]);
    assert_eq!(m.get([2, 0]), None);
    assert_eq!(m.get([0, 3]), None);
    assert_eq!(m.get([5, 7]), None);
    assert_eq!(m.get([1, 2]), Some(&6));
    assert_eq!(m.get([0, 0]), Some(&1));
}

#[test]
fn transpose_swaps_rows_and_columns() {
    let m = Matrix::<i32, 2, 3, 6>::from_array([1, 2, 3, 4, 5, 6]);
    let t: Matrix<i32, 3, 2, 6> = m.transpose();
    assert!(t.is_owned());
    for r in 0..2 {
        for c in 0..3 {
            assert_eq!(*t.index([c, r]), *m.index([r, c]));
        }
    }
    assert_eq!(t.as_vec().to_array(), [1, 3, 5, 2, 4, 6]);
}

#[test]
fn transpose_twice_is_identity() {
    let data = [7, -1, 3, 0, 9, 2, 4, 8, -5, 6, 1, 11];
    let m = Matrix::<i64, 3, 4, 12>::from_ref(&data);
    let t = m.transpose();
    let u: Matrix<i64, 3, 4, 12> = t.transpose();
    assert_eq!(u.as_vec().to_array(), data);
    assert!(m.is_borrowed());
}

#[test]
fn writing_borrowed_matrix_leaves_source() {
    let data = [1, 2, 3, 4];
    let mut m = Matrix::<i32, 2, 2, 4>::from_ref(&data);
    assert!(m.is_borrowed());
    assert!(m.set([1, 0], 20));
    assert!(m.is_owned());
    assert!(!m.is_borrowed());
    *m.index_mut([0, 1]) = 30;
    *m.get_unchecked_mut([1, 1]) = 40;
    assert_eq!(data, [1, 2, 3, 4]);
    assert_eq!(m.as_vec().to_array(), [1, 20, 30, 40]);
}

#[test]
fn set_out_of_range_changes_nothing() {
    let data = [1, 2, 3, 4];
    let mut m = Matrix::<i32, 2, 2, 4>::from_ref(&data);
    assert!(!m.set([2, 0], 9));
    assert!(!m.set([0, 2], 9));
    assert!(m.is_borrowed());
    assert_eq!(m.as_vec().to_array(), data);
}

#[test]
fn mul_args_for_three_by_two_times_two_by_three() {
    let args = Matrix::<f32, 3, 2, 6>::mul_args::<2>();
    assert_eq!(args, Some(GemmArgs { m: 2, n: 2, k: 3, lda: 3, ldb: 2, ldc: 2 }));
}

#[test]
fn mul_args_for_three_by_four_times_two_by_three() {
    let args = Matrix::<f32, 3, 4, 12>::mul_args::<2>();
    assert_eq!(args, Some(GemmArgs { m: 4, n: 2, k: 3, lda: 3, ldb: 2, ldc: 2 }));
}

#[test]
fn mul_args_rejects_dimension_beyond_i32() {
    assert_eq!(Matrix::<f32, 1, 1, 1>::mul_args::<2147483648>(), None);
    assert!(Matrix::<f32, 1, 1, 1>::mul_args::<2147483647>().is_some());
}

#[test]
fn cow_vec_checked_access() {
    let data = [5u16, 6, 7];
    let v = StaticCowVec::from_ref(&data);
    assert_eq!(v.len(), 3);
    assert_eq!(v.get(2), Some(&7));
    assert_eq!(v.get(3), None);
    assert_eq!(*v.get_unchecked(0), 5);
}

#[test]
fn cow_vec_promotes_on_write() {
    let data = [5u16, 6, 7];
    let mut v = StaticCowVec::from_ref(&data);
    assert!(v.is_borrowed());
    assert!(!v.set(3, 1));
    assert!(v.is_borrowed());
    assert!(v.set(0, 1));
    assert!(v.is_owned());
    *v.get_unchecked_mut(2) = 9;
    assert_eq!(v.as_slice(), &[1, 6, 9]);
    assert_eq!(data, [5, 6, 7]);
}

#[test]
fn cow_vec_make_owned_keeps_elements() {
    let data = [1i8, -2];
    let mut v = StaticCowVec::from_ref(&data);
    v.make_owned();
    assert!(v.is_owned());
    assert_eq!(v.to_array(), data);
    let z = StaticCowVec::<i8, 2>::zeros();
    assert_eq!(z.to_array(), [0, 0]);
    let f = StaticCowVec::<i8, 2>::filled(4);
    assert_eq!(f.to_array(), [4, 4]);
}

#[test]
fn cow_vec_mut_slice_promotes_borrowed() {
    let data = [3u32, 4, 5];
    let mut v = StaticCowVec::from_ref(&data);
    let s = v.as_mut_slice();
    s[1] = 40;
    assert!(v.is_owned());
    assert_eq!(v.to_array(), [3, 40, 5]);
    assert_eq!(data, [3, 4, 5]);
}

#[test]
fn matrix_vec_mut_writes_through() {
    let data = [1, 2, 3, 4, 5, 6];
    let mut m = Matrix::<i32, 3, 2, 6>::from_ref(&data);
    m.as_vec_mut().as_mut_slice()[4] = 50;
    assert!(m.is_owned());
    assert_eq!(*m.index([1, 1]), 50);
    assert_eq!(data[4], 5);
}

#[test]
fn matrix_copy_is_independent() {
    let m = Matrix::<i32, 2, 1, 2>::from_array([1, 2]);
    let mut n = m;
    assert!(n.set([0, 0], 7));
    assert_eq!(*m.index([0, 0]), 1);
    assert_eq!(*n.index([0, 0]), 7);
}
