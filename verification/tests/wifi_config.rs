use fetchline::wifi_config::{
    checksum, config_image, load_wifi_credentials, typed_text, CREDENTIALS_REFUSED,
    PASSWORD_MAX_LEN, SSID_MAX_LEN, WIFI_CONFIG_READ_SIZE,
};

fn stored(ssid: &str, password: &str) -> [u8; WIFI_CONFIG_READ_SIZE] {
    config_image(ssid, password).unwrap()[..WIFI_CONFIG_READ_SIZE].try_into().unwrap()
}

#[test]
fn creates_a_valid_wifi_configuration_image() {
    let image = config_image("test-network", "secret").unwrap();
    assert_eq!(&image[..4], b"FLWC");
    assert_eq!(image[4], 1);
    assert_eq!(image[5], 12);
    assert_eq!(image[6], 6);
    assert_eq!(&image[12..24], b"test-network");
    assert_eq!(&image[24..30], b"secret");
    assert!(image[30..].iter().all(|byte| *byte == 0xff));
    let stored_checksum = u32::from_le_bytes(image[8..12].try_into().unwrap());
    assert_eq!(stored_checksum, checksum(&image[..8], &image[12..30]));
}

#[test]
fn rejects_an_empty_or_overlong_ssid() {
    assert!(config_image("", "password").is_err());
    assert!(config_image(&"s".repeat(SSID_MAX_LEN + 1), "password").is_err());
}

#[test]
fn accepts_the_maximum_password_length_but_rejects_more() {
    assert!(config_image("ssid", &"p".repeat(PASSWORD_MAX_LEN)).is_ok());
    assert!(config_image("ssid", &"p".repeat(PASSWORD_MAX_LEN + 1)).is_err());
}

#[test]
fn counts_the_bytes_of_an_ssid() {
    assert!(config_image(&"\u{fc}".repeat(16), "").is_ok());
    assert_eq!(config_image(&"\u{fc}".repeat(17), ""), Err(CREDENTIALS_REFUSED));
    assert_eq!(CREDENTIALS_REFUSED, "SSID must be 1\u{2013}32 bytes and password 0\u{2013}63 bytes");
}

#[test]
fn hashes_with_fnv1a() {
    assert_eq!(checksum(b"", b""), 0x811c_9dc5);
    assert_eq!(checksum(b"", b"a"), 0xe40c_292c);
    assert_eq!(checksum(b"foo", b"bar"), 0xbf9c_f968);
}

#[test]
fn loads_the_credentials_that_were_provisioned() {
    for (ssid, password) in [("test-network", "secret"), ("caf\u{e9}", ""), ("s", "\u{1f600}")] {
        let credentials = load_wifi_credentials(&stored(ssid, password)).unwrap();
        assert_eq!(credentials.ssid, ssid);
        assert_eq!(credentials.password, password);
    }
    let ssid = "s".repeat(SSID_MAX_LEN);
    let password = "p".repeat(PASSWORD_MAX_LEN);
    let credentials = load_wifi_credentials(&stored(&ssid, &password)).unwrap();
    assert_eq!((credentials.ssid, credentials.password), (ssid, password));
}

#[test]
fn refuses_damaged_records() {
    assert!(load_wifi_credentials(&[0xff; WIFI_CONFIG_READ_SIZE]).is_none());
    assert!(load_wifi_credentials(&[0; WIFI_CONFIG_READ_SIZE]).is_none());
    let intact = stored("test-network", "secret");
    for index in 0..30 {
        let mut damaged = intact;
        damaged[index] ^= 0x40;
        assert!(load_wifi_credentials(&damaged).is_none(), "byte {index}");
    }
    let mut later = intact;
    later[30] = 0;
    assert!(load_wifi_credentials(&later).is_some());
}

#[test]
fn refuses_credentials_that_are_not_text() {
    let mut record = stored("ab", "cd");
    for index in 12..16 {
        let mut broken = record;
        broken[index] = 0xff;
        let sum = checksum(&broken[..8], &broken[12..16]);
        broken[8..12].copy_from_slice(&sum.to_le_bytes());
        assert!(load_wifi_credentials(&broken).is_none());
    }
    let sum = checksum(&record[..8], &record[12..16]);
    record[8..12].copy_from_slice(&sum.to_le_bytes());
    assert!(load_wifi_credentials(&record).is_some());
}

#[test]
fn strips_the_end_of_a_typed_line() {
    assert_eq!(typed_text("my network \r\n"), "my network ");
    assert_eq!(typed_text("a\nb\n\n\r"), "a\nb");
    assert_eq!(typed_text("\n"), "");
    assert_eq!(typed_text("none"), "none");
}

#[test]
fn a_shortened_length_can_go_unnoticed() {
    let mut record = stored("testwifi", "itrsjnb;");
    assert_eq!(load_wifi_credentials(&record).unwrap().password, "itrsjnb;");
    record[6] = 7;
    assert_eq!(load_wifi_credentials(&record).unwrap().password, "itrsjnb");
}
