use modcopy::render::{permission_string, DIR_BIT, SETGID_BIT, SETUID_BIT, STICKY_BIT};
use modcopy::subject::Subject;
use modcopy::transform::apply_transfer;

#[test]
fn plain_modes() {
    assert_eq!(permission_string(0o644), "-rw-r--r--");
    assert_eq!(permission_string(0o755), "-rwxr-xr-x");
    assert_eq!(permission_string(0), "----------");
    assert_eq!(permission_string(0o040755), "drwxr-xr-x");
}

#[test]
fn always_ten_characters() {
    for m in [0u32, 1, 0o777, 0o7777, 0o047777, u32::MAX, 0x8000_0000] {
        assert_eq!(permission_string(m).chars().count(), 10);
    }
    assert_eq!(permission_string(u32::MAX), "drwsrwsrwt");
}

#[test]
fn setuid_over_execute() {
    let m = apply_transfer(0o4700, Subject::User, &vec![Subject::Group]);
    assert_eq!(m, 0o4770);
    assert_eq!(permission_string(m), "-rwsrwx---");
    let m = apply_transfer(0o4070, Subject::Other, &vec![Subject::User]);
    assert_eq!(m, 0o4070);
    assert_eq!(permission_string(m), "---Srwx---");
}

#[test]
fn setgid_over_execute() {
    let m = apply_transfer(0o2750, Subject::User, &vec![Subject::Group]);
    assert_eq!(m, 0o2770);
    assert_eq!(permission_string(m), "-rwxrws---");
    let m = apply_transfer(0o2750, Subject::Other, &vec![Subject::Group]);
    assert_eq!(m, 0o2700);
    assert_eq!(permission_string(m), "-rwx--S---");
}

#[test]
fn sticky_over_execute() {
    let m = apply_transfer(0o041750, Subject::User, &vec![Subject::Other]);
    assert_eq!(m, 0o041757);
    assert_eq!(permission_string(m), "drwxr-xrwt");
    let m = apply_transfer(0o041757, Subject::Group, &vec![Subject::Other]);
    assert_eq!(m, 0o041755);
    assert_eq!(permission_string(m), "drwxr-xr-t");
    let m = apply_transfer(0o1776, Subject::Other, &vec![Subject::Group]);
    assert_eq!(m, 0o1766);
    assert_eq!(permission_string(m), "-rwxrw-rwT");
}

#[test]
fn bits_match_platform() {
    assert_eq!(DIR_BIT, libc::S_IFDIR as u32);
    assert_eq!(SETUID_BIT, libc::S_ISUID as u32);
    assert_eq!(SETGID_BIT, libc::S_ISGID as u32);
    assert_eq!(STICKY_BIT, libc::S_ISVTX as u32);
}
