//! The reader's enumeration, pagination, buffer-growth, open, metadata and
//! close behaviour, driven against the scripted in-memory backend.

use frnsc_liveregistry_rs::scripted::NameScript;
use frnsc_liveregistry_rs::scripted::ScriptedBackend;
use frnsc_liveregistry_rs::scripted::ValueScript;
use frnsc_liveregistry_rs::value::REG_DWORD;
use frnsc_liveregistry_rs::value::REG_SZ;
use frnsc_liveregistry_rs::KeyHandle;
use frnsc_liveregistry_rs::KeyInfo;
use frnsc_liveregistry_rs::RegError;
use frnsc_liveregistry_rs::RegistryKeyReader;
use frnsc_liveregistry_rs::TypedValue;

fn units(s: &str) -> Vec<u16> {
    s.encode_utf16().collect()
}

fn info(subkeys: u32, values: u32, max_name: u32) -> KeyInfo {
    KeyInfo {
        subkeys,
        max_subkey_name_length: max_name,
        values,
        max_value_name_length: max_name,
        max_value_length: 0,
        last_write_time: 0,
    }
}

fn backend() -> ScriptedBackend {
    ScriptedBackend {
        open_result: Ok(1000),
        info: info(0, 0, 0),
        subkey_names: Vec::new(),
        value_names: Vec::new(),
        value: ValueScript::Failing(2),
    }
}

#[test]
fn enumeration_returns_all_names_in_order() {
    let mut b = backend();
    b.info = info(3, 0, 16);
    b.subkey_names = vec![
        NameScript::Present(units("Software")),
        NameScript::Present(units("Environment")),
        NameScript::Present(units("Console")),
    ];
    let reader = RegistryKeyReader::new(b);
    let names = reader.enumerate_keys(KeyHandle::CurrentUser).unwrap();
    assert_eq!(names, vec!["Software", "Environment", "Console"]);
}

#[test]
fn enumeration_error_aborts_with_no_partial_list() {
    let mut b = backend();
    b.info = info(3, 0, 16);
    b.subkey_names = vec![
        NameScript::Present(units("first")),
        NameScript::Failing(5),
        NameScript::Present(units("third")),
    ];
    let reader = RegistryKeyReader::new(b);
    assert_eq!(
        reader.enumerate_keys(KeyHandle::CurrentUser),
        Err(RegError::PermissionDenied)
    );
}

#[test]
fn enumeration_stops_quietly_at_exhaustion() {
    let mut b = backend();
    // the metadata over-reports: the backend runs out after two names
    b.info = info(5, 0, 16);
    b.subkey_names = vec![
        NameScript::Present(units("one")),
        NameScript::Present(units("two")),
    ];
    let reader = RegistryKeyReader::new(b);
    let names = reader.enumerate_keys(KeyHandle::LocalMachine).unwrap();
    assert_eq!(names, vec!["one", "two"]);
}

#[test]
fn value_name_enumeration_walks_its_own_family() {
    let mut b = backend();
    b.info = info(0, 2, 16);
    b.value_names = vec![
        NameScript::Present(units("USERNAME")),
        NameScript::Present(units("USERPROFILE")),
    ];
    let reader = RegistryKeyReader::new(b);
    let names = reader.enumerate_values(KeyHandle::CurrentUser).unwrap();
    assert_eq!(names, vec!["USERNAME", "USERPROFILE"]);
    assert_eq!(
        reader.enumerate_keys(KeyHandle::CurrentUser),
        Ok(Vec::<String>::new())
    );
}

#[test]
fn positional_lookup_past_count_is_no_more_data() {
    let mut b = backend();
    // the backend would happily answer index 1; the count says otherwise
    b.info = info(1, 1, 16);
    b.subkey_names = vec![
        NameScript::Present(units("visible")),
        NameScript::Present(units("hidden")),
    ];
    b.value_names = vec![
        NameScript::Present(units("v")),
        NameScript::Present(units("w")),
    ];
    let reader = RegistryKeyReader::new(b);
    assert_eq!(
        reader.key_at(KeyHandle::CurrentUser, 0),
        Ok(String::from("visible"))
    );
    assert_eq!(
        reader.key_at(KeyHandle::CurrentUser, 1),
        Err(RegError::NoMoreData)
    );
    assert_eq!(
        reader.value_at(KeyHandle::CurrentUser, 7),
        Err(RegError::NoMoreData)
    );
    assert_eq!(reader.value_at(KeyHandle::CurrentUser, 0), Ok(String::from("v")));
}

#[test]
fn read_value_probes_then_fetches() {
    let mut b = backend();
    b.value = ValueScript::Data(REG_DWORD, vec![0xEF, 0xBE, 0xAD, 0xDE]);
    let reader = RegistryKeyReader::new(b);
    assert_eq!(
        reader.read_value(KeyHandle::CurrentUser, "answer"),
        Ok(TypedValue::Int32(0xDEADBEEF))
    );
}

#[test]
fn read_value_decodes_text() {
    let mut b = backend();
    let mut bytes = Vec::new();
    for u in units("USER") {
        bytes.push((u % 256) as u8);
        bytes.push((u / 256) as u8);
    }
    bytes.push(0);
    bytes.push(0);
    b.value = ValueScript::Data(REG_SZ, bytes);
    let reader = RegistryKeyReader::new(b);
    assert_eq!(
        reader.read_value(KeyHandle::CurrentUser, "USERNAME"),
        Ok(TypedValue::Text(String::from("USER")))
    );
}

#[test]
fn read_value_malformed_integer_size_is_rejected() {
    let mut b = backend();
    b.value = ValueScript::Data(REG_DWORD, vec![1, 2, 3]);
    let reader = RegistryKeyReader::new(b);
    assert_eq!(
        reader.read_value(KeyHandle::CurrentUser, "x"),
        Err(RegError::MalformedData)
    );
}

#[test]
fn read_value_missing_is_not_found() {
    let mut b = backend();
    b.value = ValueScript::Failing(2);
    let reader = RegistryKeyReader::new(b);
    assert_eq!(
        reader.read_value(KeyHandle::CurrentUser, "absent"),
        Err(RegError::NotFound)
    );
}

#[test]
fn read_value_starved_retry_terminates() {
    let mut b = backend();
    // a backend that calls every buffer too small, whatever its size
    b.value = ValueScript::Starved(64);
    let reader = RegistryKeyReader::new(b);
    assert_eq!(
        reader.read_value(KeyHandle::CurrentUser, "x"),
        Err(RegError::Other(234))
    );
}

#[test]
fn open_key_translates_handles() {
    let mut b = backend();
    b.open_result = Ok(-2147483647);
    let reader = RegistryKeyReader::new(b);
    assert_eq!(
        reader.open_key(KeyHandle::LocalMachine, "Software"),
        Ok(KeyHandle::CurrentUser)
    );

    let mut b2 = backend();
    b2.open_result = Ok(4242);
    let reader2 = RegistryKeyReader::new(b2);
    assert_eq!(
        reader2.open_key(KeyHandle::CurrentUser, "Volatile Environment"),
        Ok(KeyHandle::Opaque(4242))
    );

    let mut b3 = backend();
    b3.open_result = Err(5);
    let reader3 = RegistryKeyReader::new(b3);
    assert_eq!(
        reader3.open_key(KeyHandle::CurrentUser, "SAM"),
        Err(RegError::PermissionDenied)
    );
}

#[test]
fn key_info_reports_the_backend_metadata() {
    let mut b = backend();
    b.info = KeyInfo {
        subkeys: 3,
        max_subkey_name_length: 11,
        values: 7,
        max_value_name_length: 20,
        max_value_length: 256,
        last_write_time: 132537600000000000,
    };
    let reader = RegistryKeyReader::new(b);
    let i = reader.key_info(KeyHandle::CurrentUser);
    assert_eq!(i.subkeys, 3);
    assert_eq!(i.values, 7);
    assert_eq!(i.max_value_name_length, 20);
    assert_eq!(i.last_write_time, 132537600000000000);
}

#[test]
fn closing_twice_or_unopened_is_quiet() {
    let reader = RegistryKeyReader::new(backend());
    let key = KeyHandle::Opaque(77);
    reader.close_key(key);
    reader.close_key(key);
    // a handle that was never successfully opened
    reader.close_key(KeyHandle::Opaque(999999));
    // closing a well-known root is a no-op
    reader.close_key(KeyHandle::CurrentUser);
}
