use glam::{IVec3, UVec3};
use spatialmap::{arr_cmp, rem_e, rem_e_p2, SpatialMap, I3, U3};

fn map8() -> SpatialMap<u64> {
    SpatialMap::<u64>::with_capacity([8u32, 8, 8])
}

#[test]
fn index_is_periodic() {
    let map = SpatialMap::<u64>::with_capacity([3u32, 5, 7]);
    let base = map.index([1, -2, 4]);
    for k in -3i32..=3 {
        assert_eq!(map.index([1 + 3 * k, -2, 4]), base);
        assert_eq!(map.index([1, -2 + 5 * k, 4]), base);
        assert_eq!(map.index([1, -2, 4 + 7 * k]), base);
        assert_eq!(map.index([1 + 3 * k, -2 - 5 * k, 4 + 7 * k]), base);
    }
}

#[test]
fn index_stays_in_range() {
    let map = SpatialMap::<u64>::with_capacity([3u32, 5, 7]);
    for x in -10i32..10 {
        for y in -10i32..10 {
            for z in -10i32..10 {
                assert!(map.index([x, y, z]) < 3 * 5 * 7);
            }
        }
    }
    assert!(map.index([i32::MIN, i32::MAX, i32::MIN]) < 105);
    assert!(map8().index([i32::MAX, i32::MIN, -1]) < 512);
}

#[test]
fn index_formula() {
    let map = SpatialMap::<u64>::with_capacity([3u32, 5, 7]);
    // x = 1, y = 3, z = 4: (1 * 5 + 3) * 7 + 4
    assert_eq!(map.index([1, 3, 4]), 60);
    // -1 wraps to 2, -2 to 3, -3 to 4
    assert_eq!(map.index([-1, -2, -3]), (2 * 5 + 3) * 7 + 4);
    assert_eq!(map8().index([1, 2, 3]), (1 * 8 + 2) * 8 + 3);
    assert_eq!(map8().index([0, 0, 0]), 0);
    assert_eq!(map8().index([7, 7, 7]), 511);
}

#[test]
fn negative_coordinates_wrap() {
    let map = map8();
    assert_eq!(map.index([-1, 0, 0]), map.index([7, 0, 0]));
    assert_eq!(map.index([0, -1, 0]), map.index([0, 7, 0]));
    assert_eq!(map.index([0, 0, -9]), map.index([0, 0, 7]));
}

#[test]
fn insert_then_get_exact() {
    let mut map = map8();
    assert!(map.insert([1, 2, 3], 42).is_none());
    let cell = map.get_exact([1, 2, 3]).unwrap();
    assert_eq!(cell.value, 42);
    assert_eq!(cell.position(), &[1, 2, 3]);
    assert_eq!(map.get([1, 2, 3]).unwrap().value, 42);
}

#[test]
fn insert_same_position_replaces() {
    let mut map = map8();
    assert!(map.insert([1, 2, 3], 1).is_none());
    let old = map.insert([1, 2, 3], 2).unwrap();
    assert_eq!(old.value, 1);
    assert_eq!(old.position(), &[1, 2, 3]);
    assert_eq!(map.get_exact([1, 2, 3]).unwrap().value, 2);
}

#[test]
fn collision_evicts_earlier_entry() {
    let mut map = map8();
    assert!(map.insert([1, 0, 0], 10).is_none());
    let evicted = map.insert([9, 0, 0], 20).unwrap();
    assert_eq!(evicted.position(), &[1, 0, 0]);
    assert_eq!(evicted.value, 10);
    assert!(map.get_exact([1, 0, 0]).is_none());
    assert_eq!(map.get_exact([9, 0, 0]).unwrap().value, 20);
}

#[test]
fn remove_clears_slot() {
    let mut map = map8();
    map.insert([3, 3, 3], 5);
    let removed = map.remove([3, 3, 3]).unwrap();
    assert_eq!(removed.value, 5);
    assert!(map.get([3, 3, 3]).is_none());
    assert!(map.get_exact([3, 3, 3]).is_none());
    assert!(map.remove([3, 3, 3]).is_none());
    assert!(map.insert([11, 3, 3], 6).is_none());
}

#[test]
fn remove_exact_clears_slot() {
    let mut map = map8();
    map.insert([3, 3, 3], 5);
    assert_eq!(map.remove_exact([3, 3, 3]).unwrap().value, 5);
    assert!(map.get([3, 3, 3]).is_none());
    assert!(map.get_exact([3, 3, 3]).is_none());
    assert!(map.insert([3, 3, 3], 7).is_none());
}

#[test]
fn remove_exact_leaves_alias() {
    let mut map = map8();
    map.insert([-8, 0, 0], 4);
    assert!(map.remove_exact([0, 0, 0]).is_none());
    assert_eq!(map.get([0, 0, 0]).unwrap().value, 4);
    assert_eq!(map.get([0, 0, 0]).unwrap().position(), &[-8, 0, 0]);
    let removed = map.remove([0, 0, 0]).unwrap();
    assert_eq!(removed.position(), &[-8, 0, 0]);
    assert!(map.get([-8, 0, 0]).is_none());
}

#[test]
fn exact_and_plain_lookups_differ() {
    let mut map = SpatialMap::<u64>::with_capacity([4u32, 4, 4]);
    assert!(map.insert([0, 0, 0], 1).is_none());
    assert!(map.insert([4, 0, 0], 2).is_some());
    let cell = map.get([0, 0, 0]).unwrap();
    assert_eq!(cell.position(), &[4, 0, 0]);
    assert_eq!(cell.value, 2);
    assert!(map.get_exact([0, 0, 0]).is_none());
    assert_eq!(map.get_exact([4, 0, 0]).unwrap().value, 2);
}

#[test]
fn empty_map_has_nothing() {
    let mut map = SpatialMap::<u64>::with_capacity([2u32, 3, 1]);
    for i in 0..6 {
        assert!(map.get_index(i).is_none());
        assert!(map.get_index_mut(i).is_none());
        assert!(map.remove_index(i).is_none());
    }
    assert!(map.get([5, 5, 5]).is_none());
    assert!(map.get_exact([5, 5, 5]).is_none());
    assert!(map.get_mut([5, 5, 5]).is_none());
    assert!(map.get_exact_mut([5, 5, 5]).is_none());
    assert!(map.remove_exact([5, 5, 5]).is_none());
}

#[test]
fn single_slot_map() {
    let mut map = SpatialMap::<u64>::with_capacity([1u32, 1, 1]);
    assert_eq!(map.index([123, -456, 789]), 0);
    assert!(map.insert([123, -456, 789], 1).is_none());
    assert_eq!(map.insert([0, 0, 0], 2).unwrap().value, 1);
    assert_eq!(map.get_index(0).unwrap().value, 2);
}

#[test]
fn slot_access_by_index() {
    let mut map = map8();
    let i = map.index([2, 4, 6]);
    assert!(map.insert_index(i, [2, 4, 6], 9).is_none());
    assert_eq!(map.get_index(i).unwrap().value, 9);
    assert_eq!(map.get_exact([2, 4, 6]).unwrap().value, 9);
    map.get_index_mut(i).unwrap().value = 10;
    assert_eq!(map.get([2, 4, 6]).unwrap().value, 10);
    let removed = map.remove_index(i).unwrap();
    assert_eq!(removed.value, 10);
    assert!(map.get_index(i).is_none());
}

#[test]
fn insert_index_keeps_given_position() {
    let mut map = map8();
    assert!(map.insert_index(0, [1, 1, 1], 3).is_none());
    assert_eq!(map.get_index(0).unwrap().position(), &[1, 1, 1]);
    assert!(map.get_exact([1, 1, 1]).is_none());
    assert!(map.get_exact([0, 0, 0]).is_none());
    assert_eq!(map.get([0, 0, 0]).unwrap().value, 3);
}

#[test]
fn mutable_lookups() {
    let mut map = map8();
    map.insert([1, 1, 1], 1);
    map.get_mut([9, 1, 1]).unwrap().value = 2;
    assert_eq!(map.get_exact([1, 1, 1]).unwrap().value, 2);
    assert!(map.get_exact_mut([9, 1, 1]).is_none());
    map.get_exact_mut([1, 1, 1]).unwrap().value = 3;
    assert_eq!(map.get([1, 1, 1]).unwrap().value, 3);
    let taken = map.get_mut([1, 1, 1]).unwrap().take();
    assert_eq!(taken.value, 3);
    assert!(map.get([1, 1, 1]).is_none());
}

#[test]
fn cell_position_eq() {
    let mut map = map8();
    map.insert([-1, 2, -3], 0);
    let cell = map.get([7, 2, 5]).unwrap();
    assert!(cell.position_eq([-1, 2, -3]));
    assert!(!cell.position_eq([7, 2, 5]));
    assert!(!cell.position_eq([-1, 2, 5]));
    assert!(cell.position_eq(IVec3::new(-1, 2, -3)));
    assert!(cell.position_eq((-1isize, 2isize, -3isize)));
}

#[test]
fn non_power_of_two_extents() {
    let mut map = SpatialMap::<u64>::with_capacity([3u32, 3, 3]);
    assert_eq!(map.index([-1, -1, -1]), 26);
    assert_eq!(map.index([3, 3, 3]), 0);
    assert!(map.insert([-1, 0, 0], 1).is_none());
    assert_eq!(map.insert([2, 0, 0], 2).unwrap().value, 1);
    assert!(map.get_exact([-1, 0, 0]).is_none());
}

#[test]
fn euclidean_remainder() {
    assert_eq!(rem_e(7, 3), 1);
    assert_eq!(rem_e(-1, 8), 7);
    assert_eq!(rem_e(-9, 8), 7);
    assert_eq!(rem_e(-8, 8), 0);
    assert_eq!(rem_e(i32::MIN, 3), 1);
    assert_eq!(rem_e(i32::MAX, 5), 2);
}

#[test]
fn power_of_two_remainder() {
    assert_eq!(rem_e_p2(7, 4), 3);
    assert_eq!(rem_e_p2(-1, 8), 7);
    assert_eq!(rem_e_p2(-9, 8), 7);
    assert_eq!(rem_e_p2(i32::MIN, 64), 0);
    assert_eq!(rem_e_p2(-5, 1), 0);
    for n in -100i32..100 {
        assert_eq!(rem_e_p2(n, 16), rem_e(n, 16));
    }
}

#[test]
fn coordinate_conversions() {
    assert_eq!(*I3::from([1, -2, 3]), [1, -2, 3]);
    assert_eq!(*I3::from((4isize, -5isize, 6isize)), [4, -5, 6]);
    assert_eq!(*I3::from(IVec3::new(7, -8, 9)), [7, -8, 9]);
    assert_eq!(I3::from(IVec3::new(7, -8, 9)).as_array(), &[7, -8, 9]);
    assert_eq!(*U3::from([1u32, 2, 3]), [1, 2, 3]);
    assert_eq!(*U3::from(UVec3::new(4, 5, 6)), [4, 5, 6]);
    assert_eq!(U3::from(UVec3::new(4, 5, 6)).as_array(), &[4, 5, 6]);
}

#[test]
fn glam_inputs() {
    let mut map = SpatialMap::<u64>::with_capacity(UVec3::new(4, 2, 8));
    assert_eq!(map.index(IVec3::new(1, 1, 1)), (1 * 2 + 1) * 8 + 1);
    assert!(map.insert(IVec3::new(-1, 0, 3), 5).is_none());
    assert_eq!(map.get_exact([-1, 0, 3]).unwrap().value, 5);
    assert_eq!(map.get(IVec3::new(3, 2, 11)).unwrap().value, 5);
}

#[test]
fn array_comparison() {
    assert!(arr_cmp([0, 0, 0], [0, 0, 0]));
    assert!(arr_cmp([1, -2, 3], [1, -2, 3]));
    assert!(!arr_cmp([1, 2, 3], [1, 2, 4]));
    assert!(!arr_cmp([0, 2, 3], [1, 2, 3]));
}

#[test]
fn unchecked_slot_access() {
    let mut map = map8();
    let i = map.index([5, 5, 5]);
    map.get_index_mut_unchecked(i).take();
    assert!(map.get_index(i).is_none());
    map.insert([5, 5, 5], 8);
    map.get_index_mut_unchecked(i).value = 9;
    assert_eq!(map.get_exact([5, 5, 5]).unwrap().value, 9);
    let taken = map.get_index_mut_unchecked(i).take();
    assert_eq!(taken.value, 9);
    assert!(map.get_index(i).is_none());
}
