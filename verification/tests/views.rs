use slice2d::Slice2DExt;

#[test]
fn test() {
    let v = [1, 2, 3, 4, 5, 6, 7, 8, 9];
    let mut slice = v.get_slice2d(3, 3).unwrap();
    assert_eq!(slice.index(0)[0], 1);
    assert_eq!(slice.index(0)[1], 2);
    assert_eq!(slice.index(0)[2], 3);
    assert_eq!(slice.index(1)[0], 4);
    assert_eq!(slice.index(1)[1], 5);
    assert_eq!(slice.index(1)[2], 6);
    assert_eq!(slice.index(2)[0], 7);
    assert_eq!(slice.index(2)[1], 8);
    assert_eq!(slice.index(2)[2], 9);
    assert_eq!(slice.index(1), &[4, 5, 6]);

    assert_eq!(slice.next().unwrap(), &[1, 2, 3]);
    assert_eq!(slice.next().unwrap(), &[4, 5, 6]);
    assert_eq!(slice.next().unwrap(), &[7, 8, 9]);
    assert_eq!(slice.next(), None);
    assert_eq!(slice.next(), None);

    let mut v = [1, 2, 3, 4, 5, 6];
    let slice = v.get_slice2d_mut(3, 2).unwrap();
    assert_eq!(slice.index(0)[0], 1);
    assert_eq!(slice.index(0)[1], 2);
    assert_eq!(slice.index(1)[0], 3);
    assert_eq!(slice.index(1)[1], 4);
    assert_eq!(slice.index(2)[0], 5);
    assert_eq!(slice.index(2)[1], 6);
    assert_eq!(slice.index(1), &[3, 4]);
}

#[test]
fn validated_construction_succeeds_on_exact_fit() {
    let v = [10, 20, 30, 40, 50, 60, 70, 80, 90, 100, 110, 120];
    let view = v.get_slice2d(4, 3).unwrap();
    for i in 0..4 {
        let row = view.get(i).unwrap();
        assert_eq!(row.len(), 3);
        assert_eq!(row, &v[i * 3..i * 3 + 3]);
    }
    assert_eq!(view.get(4), None);
}

#[test]
fn validated_construction_fails_on_mismatch() {
    let seven = [1, 2, 3, 4, 5, 6, 7];
    assert!(seven.get_slice2d(3, 3).is_none());
    let mut seven = seven;
    assert!(seven.get_slice2d_mut(3, 3).is_none());

    let six = [1, 2, 3, 4, 5, 6];
    assert!(six.get_slice2d(2, 2).is_none());
    assert!(six.get_slice2d(4, 2).is_none());
    let mut six = six;
    assert!(six.get_slice2d_mut(5, 2).is_none());
}

#[test]
fn strided_rows_address_the_flat_buffer() {
    let v = [1, 2, 3, 4, 5, 6, 7, 8, 9, 10, 11];
    let view = v.slice2d(2, 3);
    for i in 0..4 {
        let row = view.get(i).unwrap();
        for k in 0..2 {
            assert_eq!(row[k], v[i * 3 + k]);
        }
    }
    assert_eq!(view.get(4), None);
}

#[test]
fn mutation_is_visible_immediately() {
    let mut v = [1, 2, 3, 4, 5, 6];
    let mut view = v.get_slice2d_mut(3, 2).unwrap();
    assert_eq!(view.index(0), &[1, 2]);
    assert_eq!(view.index(1), &[3, 4]);
    assert_eq!(view.index(2), &[5, 6]);

    view.get_mut(1).unwrap()[0] = 30;
    assert_eq!(view.get(1).unwrap(), &[30, 4]);
    assert_eq!(view.index(1), &[30, 4]);

    view.index_mut(2)[1] = 60;
    assert_eq!(view.index(2), &[5, 60]);
    assert_eq!(view.index(0), &[1, 2]);

    assert!(view.get_mut(3).is_none());
    drop(view);
    assert_eq!(v, [1, 2, 30, 4, 5, 60]);
}

#[test]
fn iteration_yields_rows_then_sticky_exhaustion() {
    let v = [1, 2, 3, 4, 5, 6, 7, 8, 9];
    let mut view = v.get_slice2d(3, 3).unwrap();
    assert_eq!(view.next().unwrap(), &[1, 2, 3]);
    assert_eq!(view.next().unwrap(), &[4, 5, 6]);
    assert_eq!(view.next().unwrap(), &[7, 8, 9]);
    assert_eq!(view.next(), None);
    assert_eq!(view.next(), None);
    assert_eq!(view.next(), None);
}

#[test]
fn strided_iteration_skips_gaps_and_discards_partial_rows() {
    let v = [1, 2, 3, 4, 5, 6, 7];
    let mut view = v.slice2d(2, 3);
    assert_eq!(view.next().unwrap(), &[1, 2]);
    assert_eq!(view.next().unwrap(), &[4, 5]);
    assert_eq!(view.next(), None);
    assert_eq!(view.next(), None);
}

#[test]
fn iteration_advances_the_views_own_cursor() {
    let v = [1, 2, 3, 4, 5, 6];
    let mut view = v.slice2d(2, 2);
    assert_eq!(view.next().unwrap(), &[1, 2]);
    // The cursor is the view's own buffer: indexed lookup now sees the rest.
    assert_eq!(view.get(0).unwrap(), &[3, 4]);
    assert_eq!(view.index(1), &[5, 6]);
}

#[test]
fn downgrade_observes_the_same_values() {
    let mut v = [9, 8, 7, 6, 5, 4];
    let mut view = v.get_slice2d_mut(2, 3).unwrap();
    view.get_mut(0).unwrap()[2] = 70;
    {
        let read = view.downgrade();
        assert_eq!(read.get(0).unwrap(), view.get(0).unwrap());
        assert_eq!(read.get(1).unwrap(), view.get(1).unwrap());
        assert_eq!(read.get(0).unwrap(), &[9, 8, 70]);
        assert_eq!(read.get(2), None);
    }
    let read_again = view.downgrade();
    assert_eq!(read_again.index(1), &[6, 5, 4]);
}

#[test]
fn reborrow_writes_reach_the_original_view() {
    let mut v = [0, 0, 0, 0];
    let mut view = v.get_slice2d_mut(2, 2).unwrap();
    {
        let mut short = view.reborrow();
        short.get_mut(0).unwrap()[1] = 5;
        short.index_mut(1)[0] = 6;
    }
    assert_eq!(view.get(0).unwrap(), &[0, 5]);
    assert_eq!(view.get(1).unwrap(), &[6, 0]);
    drop(view);
    assert_eq!(v, [0, 5, 6, 0]);
}

#[test]
fn out_of_range_lookup_is_absent_not_fatal() {
    let v = [1, 2, 3, 4];
    let view = v.slice2d(3, 2);
    assert_eq!(view.get(0).unwrap(), &[1, 2, 3]);
    assert_eq!(view.get(1), None);
    assert_eq!(view.get(usize::MAX), None);
    // An index whose row origin overflows the index type is out of range too.
    let wide = v.slice2d(1, usize::MAX);
    assert_eq!(wide.get(2), None);
}

#[test]
fn zero_row_length_never_exhausts() {
    let v = [1, 2, 3];
    let view = v.slice2d(0, 2);
    // A zero-length row is addressable wherever its origin still fits.
    assert_eq!(view.get(0).unwrap(), &[]);
    assert_eq!(view.get(1).unwrap(), &[]);
    assert_eq!(view.get(2), None);
    let mut iter = v.slice2d(0, 2);
    assert_eq!(iter.next().unwrap(), &[]);
    assert_eq!(iter.next().unwrap(), &[]);
    assert_eq!(iter.next().unwrap(), &[]);
}

#[test]
fn zero_stride_repeats_the_first_row() {
    let v = [1, 2, 3];
    let mut view = v.slice2d(2, 0);
    assert_eq!(view.next().unwrap(), &[1, 2]);
    assert_eq!(view.next().unwrap(), &[1, 2]);
    assert_eq!(view.get(7).unwrap(), &[1, 2]);
}

#[test]
fn explicit_construction_accepts_any_dimensions() {
    let v = [1, 2, 3, 4, 5];
    let view = v.slice2d(4, 10);
    assert_eq!(view.get(0).unwrap(), &[1, 2, 3, 4]);
    assert_eq!(view.get(1), None);
    let mut v = v;
    let m = v.slice2d_mut(9, 1);
    assert!(m.get(0).is_none());
}
