//! The wide-string codec, the handle translator, and the error mapper, on
//! concrete values.

use frnsc_liveregistry_rs::from_pwstr;
use frnsc_liveregistry_rs::handle::from_hkey;
use frnsc_liveregistry_rs::handle::to_hkey;
use frnsc_liveregistry_rs::handle::HKEY_CLASSES_ROOT;
use frnsc_liveregistry_rs::handle::HKEY_CURRENT_USER;
use frnsc_liveregistry_rs::filetime_ticks;
use frnsc_liveregistry_rs::status::map_status;
use frnsc_liveregistry_rs::to_pwstr;
use frnsc_liveregistry_rs::vec_with_capacity;
use frnsc_liveregistry_rs::KeyHandle;
use frnsc_liveregistry_rs::RegError;

#[test]
fn to_pwstr_appends_terminator() {
    assert_eq!(to_pwstr("AB"), vec![0x41, 0x42, 0]);
    assert_eq!(to_pwstr(""), vec![0]);
}

#[test]
fn from_pwstr_decodes_units() {
    assert_eq!(from_pwstr(&[0x55, 0x53, 0x45, 0x52]), String::from("USER"));
    assert_eq!(from_pwstr(&[]), String::new());
}

#[test]
fn from_pwstr_is_lossy_not_failing() {
    // an unpaired surrogate decodes to the substitution marker
    assert_eq!(from_pwstr(&[0xD800]), String::from("\u{FFFD}"));
}

#[test]
fn vec_with_capacity_is_zero_filled() {
    let v = vec_with_capacity(5);
    assert_eq!(v, vec![0u8; 5]);
    assert_eq!(vec_with_capacity(0), Vec::<u8>::new());
}

#[test]
fn filetime_ticks_combines_halves() {
    assert_eq!(filetime_ticks(0x89ABCDEF, 0x01234567), 0x0123456789ABCDEF);
    assert_eq!(filetime_ticks(7, 0), 7);
}

#[test]
fn well_known_roots_translate_both_ways() {
    assert_eq!(to_hkey(KeyHandle::CurrentUser), HKEY_CURRENT_USER);
    assert_eq!(from_hkey(HKEY_CURRENT_USER), KeyHandle::CurrentUser);
    assert_eq!(from_hkey(HKEY_CLASSES_ROOT), KeyHandle::ClassesRoot);
    assert_eq!(from_hkey(to_hkey(KeyHandle::Users)), KeyHandle::Users);
}

#[test]
fn unknown_raw_handle_comes_back_opaque() {
    assert_eq!(from_hkey(4242), KeyHandle::Opaque(4242));
    assert_eq!(to_hkey(KeyHandle::Opaque(4242)), 4242);
    // an opaque handle carrying a well-known value comes back as the root
    assert_eq!(
        from_hkey(to_hkey(KeyHandle::Opaque(HKEY_CURRENT_USER))),
        KeyHandle::CurrentUser
    );
}

#[test]
fn status_codes_map_totally() {
    assert_eq!(map_status(2), RegError::NotFound);
    assert_eq!(map_status(5), RegError::PermissionDenied);
    assert_eq!(map_status(6), RegError::InvalidHandle);
    assert_eq!(map_status(13), RegError::MalformedData);
    assert_eq!(map_status(18), RegError::NoMoreData);
    assert_eq!(map_status(259), RegError::NoMoreData);
    assert_eq!(map_status(234), RegError::Other(234));
    assert_eq!(map_status(1450), RegError::Other(1450));
}
