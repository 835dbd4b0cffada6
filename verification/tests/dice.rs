use houston::dice::{DiceSet, DiceSetVec, format_dice_rolls, dice};

#[test]
fn dice_set_parses() {
    let d = DiceSet::from_str("2d6").unwrap();
    assert_eq!(d.count(), 2);
    assert_eq!(d.faces(), 6);
    let d = DiceSet::from_str("255D65535").unwrap();
    assert_eq!((d.count(), d.faces()), (255, 65535));
    let d = DiceSet::from_str("+3d+020").unwrap();
    assert_eq!((d.count(), d.faces()), (3, 20));
    assert!(DiceSet::from_str("0d6").is_err());
    assert!(DiceSet::from_str("256d6").is_err());
    assert!(DiceSet::from_str("1d65536").is_err());
    assert!(DiceSet::from_str("1d").is_err());
    assert!(DiceSet::from_str("d6").is_err());
    assert!(DiceSet::from_str("2x6").is_err());
    assert!(DiceSet::from_str("1d2d3").is_err());
}

#[test]
fn dice_set_vec_parses() {
    let v = DiceSetVec::from_str("1d20 2d4,\u{3000}3d6").unwrap().into_vec();
    let got: Vec<(u8, u16)> = v.iter().map(|d| (d.count(), d.faces())).collect();
    assert_eq!(got, vec![(1, 20), (2, 4), (3, 6)]);
    assert!(DiceSetVec::from_str("  ,, ").is_err());
    assert!(DiceSetVec::from_str("1d20 x").is_err());
}

#[test]
fn dice_rolls_format() {
    let sets = DiceSetVec::from_str("2d6 1d20").unwrap().into_vec();
    let (total, text) = format_dice_rolls(&sets, &vec![vec![3, 5], vec![17]]);
    assert_eq!(total, 25);
    assert_eq!(text, "- **2d6:** 3 5 *(\u{2211}8)*\n- **1d20:** 17\n");
    let single = DiceSetVec::from_str("2d6").unwrap().into_vec();
    let (total, text) = format_dice_rolls(&single, &vec![vec![1, 6]]);
    assert_eq!(total, 7);
    assert_eq!(text, "- **2d6:** 1 6\n");
}

#[test]
fn dice_command() {
    let roll = dice(DiceSetVec::from_str("3d1").unwrap()).ok().unwrap();
    assert_eq!(roll.title, "Total \u{2211}3");
    assert_eq!(roll.description, "- **3d1:** 1 1 1\n");
    assert!(dice(DiceSetVec::from_str("255d6 1d6").unwrap()).is_err());
    assert!(dice(DiceSetVec::from_str("255d6").unwrap()).is_ok());
}

#[test]
fn dice_total_fits() {
    let sets = DiceSetVec::from_str("200d65535 55d65535").unwrap();
    let roll = dice(sets).ok().unwrap();
    let total: u32 = roll.title.trim_start_matches("Total \u{2211}").parse().unwrap();
    assert!((255..=255 * 65535).contains(&total));
    let lines: Vec<&str> = roll.description.lines().collect();
    assert_eq!(lines.len(), 2);
    assert!(lines[0].starts_with("- **200d65535:**"));
    assert!(lines[0].ends_with(")*"));
}
