use vlcsync::utils::{array_copy, AbsSub, AllowOnlyOne, AllowOnlyOneError};

#[test]
fn abs_sub_u64() {
    assert_eq!(5u64.abs_sub(8), 3);
    assert_eq!(8u64.abs_sub(5), 3);
    assert_eq!(0u64.abs_sub(u64::MAX), u64::MAX);
}

#[test]
fn allow_only_one_states() {
    let none: AllowOnlyOne<u32> = AllowOnlyOne::new();
    assert!(!none.has_second());
    assert_eq!(none.into_res(), Err(AllowOnlyOneError::NoneFound));

    let one = AllowOnlyOne::new().with_next(4u32).with_next(4);
    assert!(!one.has_second());
    assert_eq!(one.into_res(), Ok(4));

    let two = AllowOnlyOne::from_first(4u32).with_next(5).with_next(4).with_next(6);
    assert!(two.has_second());
    assert_eq!(two.into_res(), Err(AllowOnlyOneError::GotSecond(5)));

    let mut pushed = AllowOnlyOne::default();
    pushed.push_next(7u32);
    pushed.push_next(7);
    assert_eq!(pushed.into_res(), Ok(7));
    assert_eq!(AllowOnlyOne::from_second(9u32).into_res(), Err(AllowOnlyOneError::GotSecond(9)));
}

#[test]
fn allow_only_one_collects() {
    assert_eq!(AllowOnlyOne::from_items(vec![1u8, 1, 1]).into_res(), Ok(1));
    assert_eq!(AllowOnlyOne::<u8>::from_items(vec![]).into_res(), Err(AllowOnlyOneError::NoneFound));
    assert_eq!(
        AllowOnlyOne::from_items(vec![1u8, 2, 3]).into_res(),
        Err(AllowOnlyOneError::GotSecond(2))
    );
    let mut a = AllowOnlyOne::from_first(3u8);
    a.extend_items(vec![3, 3]);
    assert_eq!(a.into_res(), Ok(3));
}

#[test]
fn copies_array_prefix() {
    let a: [u8; 3] = array_copy(&[1, 2, 3, 4]);
    assert_eq!(a, [1, 2, 3]);
    let raw = [7u8; 32];
    let id: [u8; 16] = array_copy(&raw[0..]);
    assert_eq!(u128::from_le_bytes(id), u128::from_le_bytes([7u8; 16]));
    let none: [u64; 0] = array_copy(&[]);
    assert_eq!(none.len(), 0);
}
