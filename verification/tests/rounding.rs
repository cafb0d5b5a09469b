use wrapang::Angle;

#[test]
fn round_picks_the_nearer_multiple() {
    let right = Angle::quarter();
    assert!(Angle(0).round(right) == Angle::zero());
    assert!(Angle(1).round(right) == Angle::zero());
    assert!(Angle(0x1fff_ffff).round(right) == Angle::zero());
    assert!(Angle(0x2000_0001).round(right) == Angle::quarter());
    assert!(Angle(0x4000_0000).round(right) == Angle::quarter());
    assert!(Angle(0x5fff_ffff).round(right) == Angle::quarter());
    assert!(Angle(0x6000_0001).round(right) == Angle::half());
    assert!(Angle(0xb000_0000).round(right) == Angle::coun());
    assert_eq!(Angle(100).round(Angle(7)).as_u32(), 98);
    assert_eq!(Angle(101).round(Angle(7)).as_u32(), 98);
    assert_eq!(Angle(102).round(Angle(7)).as_u32(), 105);
    assert_eq!(Angle(105).round(Angle(7)).as_u32(), 105);
}

#[test]
fn round_ties_go_to_the_larger_multiple() {
    assert!(Angle::eighth().round(Angle::quarter()) == Angle::quarter());
    assert!(Angle(0x6000_0000).round(Angle::quarter()) == Angle::half());
    assert!(Angle::quarter().round(Angle::half()) == Angle::half());
    assert_eq!(Angle(5).round(Angle(10)).as_u32(), 10);
    assert_eq!(Angle(15).round(Angle(10)).as_u32(), 20);
    assert_eq!(Angle(4).round(Angle(10)).as_u32(), 0);
    assert_eq!(Angle(1).round(Angle(2)).as_u32(), 2);
}

#[test]
fn round_up_across_the_full_turn_wraps_to_zero() {
    assert!(Angle(0xf000_0000).round(Angle::quarter()) == Angle::zero());
    assert!(Angle(0xe000_0000).round(Angle::quarter()) == Angle::zero());
    assert!(Angle(0xdfff_ffff).round(Angle::quarter()) == Angle::coun());
    assert!(Angle::coun().round(Angle::half()) == Angle::zero());
    assert!(Angle(u32::MAX).round(Angle(2)) == Angle::zero());
    assert!(Angle(u32::MAX).round(Angle::half()) == Angle::zero());
}

#[test]
fn round_to_a_unit_of_one_step_changes_nothing() {
    for v in [0u32, 1, 2, 0x7fff_ffff, 0x8000_0000, u32::MAX] {
        assert_eq!(Angle(v).round(Angle(1)).as_u32(), v);
    }
}

#[test]
fn round_of_a_multiple_is_itself() {
    for k in 0u32..12 {
        let v = Angle::twelvth() * k;
        assert!(v.round(Angle::twelvth()) == v);
    }
    assert!(Angle::half().round(Angle::half()) == Angle::half());
}

#[test]
fn round_to_a_unit_that_does_not_divide_the_turn() {
    let unit = Angle(0x6000_0000);
    assert_eq!(Angle(0x2fff_ffff).round(unit).as_u32(), 0);
    assert_eq!(Angle(0x3000_0000).round(unit).as_u32(), 0x6000_0000);
    assert_eq!(Angle(0x9000_0000).round(unit).as_u32(), 0xc000_0000);
    assert_eq!(Angle(0xf000_0000).round(unit).as_u32(), 0x2000_0000);
    assert_eq!(Angle(0xefff_ffff).round(unit).as_u32(), 0xc000_0000);
    assert_eq!(Angle(5).round(Angle(u32::MAX)).as_u32(), 0);
    assert_eq!(Angle(0x8000_0000).round(Angle(u32::MAX)).as_u32(), u32::MAX);
    assert_eq!(Angle(u32::MAX).round(Angle(u32::MAX)).as_u32(), u32::MAX);
}

#[test]
fn round_is_never_further_than_half_a_unit() {
    let units = [1u32, 2, 3, 7, 90, 0x1_0000, 0x2000_0000, 0x4000_0000, 0x8000_0000, u32::MAX];
    let values = [0u32, 1, 44, 45, 46, 0x1234_5678, 0x7fff_ffff, 0x8000_0000, 0xffff_fffe, u32::MAX];
    for u in units {
        for v in values {
            let rounded = Angle(v).round(Angle(u));
            let below = (v / u) as u64 * u as u64;
            let above = below + u as u64;
            let expect = if above - v as u64 <= v as u64 - below { above } else { below };
            assert_eq!(rounded.as_u32() as u64, expect % 0x1_0000_0000);
            let off = if expect > v as u64 { expect - v as u64 } else { v as u64 - expect };
            assert!(2 * off <= u as u64);
        }
    }
}
