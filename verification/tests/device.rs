use dino_run::device::{requested_access, Access, OpenFlags};
use dino_run::entity::Sprite;

fn usual() -> OpenFlags {
    OpenFlags { access_mask: 3, read_only: 0, write_only: 1, read_write: 2 }
}

#[test]
fn read_only_flags_ask_for_reading() {
    assert_eq!(requested_access(0, &usual()), Access { read: true, write: false });
    assert_eq!(requested_access(0o4000, &usual()), Access { read: true, write: false });
}

#[test]
fn write_only_flags_ask_for_writing() {
    assert_eq!(requested_access(1, &usual()), Access { read: false, write: true });
    assert_eq!(requested_access(0o4001, &usual()), Access { read: false, write: true });
}

#[test]
fn read_write_flags_ask_for_both() {
    assert_eq!(requested_access(2, &usual()), Access { read: true, write: true });
    assert_eq!(requested_access(0o2004002, &usual()), Access { read: true, write: true });
}

#[test]
fn unknown_access_mode_asks_for_nothing() {
    assert_eq!(requested_access(3, &usual()), Access { read: false, write: false });
}

#[test]
fn access_mode_follows_the_encoding_given() {
    let odd = OpenFlags { access_mask: 0x0003_0000, read_only: 0x0001_0000, write_only: 0x0002_0000, read_write: 0x0003_0000 };
    assert_eq!(requested_access(0x0001_0004, &odd), Access { read: true, write: false });
    assert_eq!(requested_access(0x0003_0000, &odd), Access { read: true, write: true });
    assert_eq!(requested_access(0x0000_0001, &odd), Access { read: false, write: false });
}

#[test]
fn sprite_of_the_size_asked_for_fits() {
    let s = Sprite { handle: 3, width: 40, height: 40 };
    assert!(s.fits(40));
    assert!(!s.fits(24));
    assert!(!Sprite { handle: 3, width: 40, height: 41 }.fits(40));
    assert!(!Sprite { handle: 3, width: 39, height: 40 }.fits(40));
}

#[test]
fn rescaled_sprite_is_a_square_of_the_size_asked_for() {
    let s = Sprite { handle: 3, width: 128, height: 96 }.rescaled(24);
    assert_eq!(s, Sprite { handle: 3, width: 24, height: 24 });
    assert!(s.fits(24));
}
