use houston::who::{write_flags, write_permissions, write_public_flags};

#[test]
fn permissions_of_administrator() {
    let mut f = String::new();
    write_permissions(&mut f, 0x8 | 0x400);
    assert_eq!(f, "**Permissions:** `0x408`\n> -# Administrator, *\n");
}

#[test]
fn permissions_are_listed_in_order() {
    let mut f = String::new();
    write_permissions(&mut f, 0x800 | 0x400 | (1 << 50));
    assert_eq!(f, "**Permissions:** `0x4000000000c00`\n> -# View Channel, Send Messages, Use External Apps\n");
}

#[test]
fn permissions_empty_and_unknown() {
    let mut f = String::new();
    write_permissions(&mut f, 0);
    assert_eq!(f, "**Permissions:** `0x0`\n> -# \n");
    let mut f = String::new();
    write_permissions(&mut f, 1 << 47);
    assert_eq!(f, "**Permissions:** `0x800000000000`\n> -# <None?>\n");
}

#[test]
fn public_flags_listed() {
    let mut f = String::from("x");
    write_public_flags(&mut f, (1 << 22) | (1 << 3));
    assert_eq!(f, "x**Public Flags:** `0x400008`\n> -# Bug Hunter Level 1, Active Developer\n");
}

#[test]
fn flags_need_all_bits() {
    let mut f = String::new();
    write_flags(&mut f, 0b011, &[(0b110, "A"), (0b001, "B"), (0b011, "C")]);
    assert_eq!(f, "B, C");
    let mut f = String::new();
    write_flags(&mut f, 0, &[(0b1, "A")]);
    assert_eq!(f, "<None?>");
}
