//! The Wi-Fi credentials that the host provisions into flash.
//!
//! The record is `FLWC`, a version byte, the lengths of SSID and password, an unused byte, a
//! little-endian FNV-1a checksum, the SSID and the password. The rest of the sector stays erased.

use vstd::prelude::*;
use vstd::slice::slice_subrange;
use vstd::utf8::{
    decode_utf8, encode_utf8, encode_utf8_decode_utf8, encode_utf8_valid_utf8, valid_utf8,
};

use crate::text::{chars_of, utf8_text};
use crate::wire::{join32, join_word, le32, split32};

verus! {

/// Where the record stands in flash.
pub const WIFI_CONFIG_FLASH_OFFSET: usize = 0x003f_0000;

/// The size of the flash sector that holds the record.
pub const CONFIG_SIZE: usize = 4096;

/// How many bytes of the record are read at startup.
pub const WIFI_CONFIG_READ_SIZE: usize = 108;

pub const WIFI_CONFIG_MAGIC: [u8; 4] = [0x46, 0x4c, 0x57, 0x43];

pub const WIFI_CONFIG_VERSION: u8 = 1;

pub const SSID_MAX_LEN: usize = 32;

pub const PASSWORD_MAX_LEN: usize = 63;

pub const CREDENTIALS_REFUSED: &'static str = "SSID must be 1–32 bytes and password 0–63 bytes";

/// The checksum of a byte string to which `byte` is appended, where it was `hash` before.
pub open spec fn next_hash(hash: u32, byte: u8) -> u32 {
    (((hash ^ byte as u32) * 0x0100_0193) % 0x1_0000_0000) as u32
}

/// The 32-bit FNV-1a hash of a byte string.
pub open spec fn fnv1a(bytes: Seq<u8>) -> u32
    decreases bytes.len(),
{
    if bytes.len() == 0 {
        0x811c_9dc5
    } else {
        next_hash(fnv1a(bytes.drop_last()), bytes.last())
    }
}

/// The first bytes of a record, without the checksum.
pub open spec fn record_header(ssid_len: nat, password_len: nat) -> Seq<u8> {
    WIFI_CONFIG_MAGIC@ + seq![WIFI_CONFIG_VERSION, ssid_len as u8, password_len as u8, 0xffu8]
}

/// A record with its checksum.
pub open spec fn config_record(ssid: Seq<u8>, password: Seq<u8>) -> Seq<u8> {
    let header = record_header(ssid.len(), password.len());
    let payload = ssid + password;
    header + le32(fnv1a(header + payload)) + payload
}

/// A byte string of the given length that starts with `bytes` and is erased flash after them.
pub open spec fn in_erased_flash(bytes: Seq<u8>, length: nat) -> Seq<u8> {
    Seq::new(
        length,
        |i: int|
            if i < bytes.len() {
                bytes[i]
            } else {
                0xff
            },
    )
}

/// Whether an SSID and a password have lengths that a record can hold.
pub open spec fn credentials_fit(ssid: Seq<u8>, password: Seq<u8>) -> bool {
    1 <= ssid.len() <= SSID_MAX_LEN && password.len() <= PASSWORD_MAX_LEN
}

/// The SSID and password of a record, if the record is intact.
pub open spec fn stored_credentials(bytes: Seq<u8>) -> Option<(Seq<char>, Seq<char>)> {
    let ssid_end = 12 + bytes[5];
    let password_end = ssid_end + bytes[6];
    let ssid = bytes.subrange(12, ssid_end);
    let password = bytes.subrange(ssid_end, password_end);
    if bytes.take(4) == WIFI_CONFIG_MAGIC@ && bytes[4] == WIFI_CONFIG_VERSION && 1 <= bytes[5]
        <= SSID_MAX_LEN && bytes[6] <= PASSWORD_MAX_LEN && join32(
        bytes[8],
        bytes[9],
        bytes[10],
        bytes[11],
    ) == fnv1a(bytes.take(8) + bytes.subrange(12, password_end)) && valid_utf8(ssid) && valid_utf8(
        password,
    ) {
        Some((decode_utf8(ssid), decode_utf8(password)))
    } else {
        None
    }
}

fn extend_hash(hash: u32, bytes: &[u8], hashed: Ghost<Seq<u8>>) -> (extended: u32)
    requires
        hash == fnv1a(hashed@),
    ensures
        extended == fnv1a(hashed@ + bytes@),
{
    let mut extended: u32 = hash;
    let mut index: usize = 0;
    proof {
        assert(hashed@ + bytes@.take(0) =~= hashed@);
    }
    while index < bytes.len()
        invariant
            index <= bytes@.len(),
            extended == fnv1a(hashed@ + bytes@.take(index as int)),
        decreases bytes@.len() - index,
    {
        proof {
            let more = hashed@ + bytes@.take(index + 1);
            assert(more.drop_last() =~= hashed@ + bytes@.take(index as int));
            assert(more.last() == bytes@[index as int]);
        }
        extended = (extended ^ bytes[index] as u32).wrapping_mul(0x0100_0193);
        index += 1;
    }
    proof {
        assert(bytes@.take(bytes@.len() as int) =~= bytes@);
    }
    extended
}

/// The FNV-1a hash of a header and a payload.
pub fn checksum(header: &[u8], payload: &[u8]) -> (hash: u32)
    ensures
        hash == fnv1a(header@ + payload@),
{
    proof {
        assert(Seq::<u8>::empty() + header@ =~= header@);
    }
    let hash = extend_hash(0x811c_9dc5, header, Ghost(Seq::empty()));
    extend_hash(hash, payload, Ghost(header@))
}

fn write_at(image: &mut [u8; 4096], offset: usize, bytes: &[u8])
    requires
        offset + bytes@.len() <= 4096,
    ensures
        final(image)@ == old(image)@.take(offset as int) + bytes@ + old(image)@.skip(
            offset + bytes@.len(),
        ),
{
    let mut index: usize = 0;
    while index < bytes.len()
        invariant
            index <= bytes@.len(),
            offset + bytes@.len() <= 4096,
            image@ =~= old(image)@.take(offset as int) + bytes@.take(index as int) + old(
                image,
            )@.skip(offset + index),
        decreases bytes@.len() - index,
    {
        image[offset + index] = bytes[index];
        index += 1;
    }
}

/// The contents of the flash sector that provisions an SSID and a password.
pub fn config_image(ssid: &str, password: &str) -> (image: Result<[u8; 4096], &'static str>)
    ensures
        image is Ok <==> credentials_fit(encode_utf8(ssid@), encode_utf8(password@)),
        image matches Ok(image) ==> image@ == in_erased_flash(
            config_record(encode_utf8(ssid@), encode_utf8(password@)),
            CONFIG_SIZE as nat,
        ),
        image matches Err(message) ==> message@ == CREDENTIALS_REFUSED@,
{
    let ssid = ssid.as_bytes();
    let password = password.as_bytes();
    let ssid_len: usize = ssid.len();
    let password_len: usize = password.len();
    if ssid_len == 0 || ssid_len > SSID_MAX_LEN || password_len > PASSWORD_MAX_LEN {
        return Err(CREDENTIALS_REFUSED);
    }
    let ghost header = record_header(ssid@.len(), password@.len());
    let mut image: [u8; 4096] = [0xffu8; 4096];
    image[0] = WIFI_CONFIG_MAGIC[0];
    image[1] = WIFI_CONFIG_MAGIC[1];
    image[2] = WIFI_CONFIG_MAGIC[2];
    image[3] = WIFI_CONFIG_MAGIC[3];
    image[4] = WIFI_CONFIG_VERSION;
    image[5] = ssid_len as u8;
    image[6] = password_len as u8;
    proof {
        assert(image@.take(8) =~= header);
    }
    write_at(&mut image, 12, ssid);
    write_at(&mut image, 12 + ssid_len, password);
    let end: usize = 12 + ssid_len + password_len;
    let hash = checksum(
        slice_subrange(image.as_slice(), 0, 8),
        slice_subrange(image.as_slice(), 12, end),
    );
    proof {
        assert(image@.subrange(0, 8) =~= header);
        assert(image@.subrange(12, end as int) =~= ssid@ + password@);
    }
    let bytes = split32(hash);
    write_at(&mut image, 8, bytes.as_slice());
    proof {
        assert(image@ =~= in_erased_flash(config_record(ssid@, password@), CONFIG_SIZE as nat));
    }
    Ok(image)
}

/// What a person typed, without the end of the line.
pub open spec fn without_line_end(line: Seq<char>) -> Seq<char>
    decreases line.len(),
{
    if line.len() > 0 && (line.last() == '\r' || line.last() == '\n') {
        without_line_end(line.drop_last())
    } else {
        line
    }
}

/// What a person typed, without the end of the line.
pub fn typed_text(line: &str) -> (text: String)
    ensures
        text@ == without_line_end(line@),
{
    let chars = chars_of(line);
    let mut end: usize = chars.len();
    proof {
        assert(line@.take(end as int) =~= line@);
    }
    while end > 0 && (chars[end - 1] == '\r' || chars[end - 1] == '\n')
        invariant
            end <= chars@.len(),
            chars@ == line@,
            without_line_end(line@) == without_line_end(line@.take(end as int)),
        decreases end,
    {
        proof {
            assert(line@.take(end as int).drop_last() =~= line@.take(end - 1));
        }
        end -= 1;
    }
    proof {
        assert(line@.take(end as int) =~= line@.subrange(0, end as int));
    }
    line.substring_char(0, end).to_owned()
}

/// The credentials of an intact record.
#[derive(Debug)]
pub struct WifiCredentials {
    pub ssid: String,
    pub password: String,
}

/// Reads the credentials out of the start of the provisioned flash sector.
pub fn load_wifi_credentials(bytes: &[u8; 108]) -> (credentials: Option<WifiCredentials>)
    ensures
        match credentials {
            Some(credentials) => stored_credentials(bytes@) == Some(
                (credentials.ssid@, credentials.password@),
            ),
            None => stored_credentials(bytes@) is None,
        },
{
    let ghost magic = bytes@.take(4);
    proof {
        assert(WIFI_CONFIG_MAGIC@.len() == 4);
        assert(magic[0] == bytes@[0] && magic[1] == bytes@[1] && magic[2] == bytes@[2] && magic[3]
            == bytes@[3]);
    }
    if bytes[0] != WIFI_CONFIG_MAGIC[0] || bytes[1] != WIFI_CONFIG_MAGIC[1] || bytes[2]
        != WIFI_CONFIG_MAGIC[2] || bytes[3] != WIFI_CONFIG_MAGIC[3] || bytes[4]
        != WIFI_CONFIG_VERSION {
        return None;
    }
    proof {
        assert(magic =~= WIFI_CONFIG_MAGIC@);
    }
    let ssid_len: usize = bytes[5] as usize;
    let password_len: usize = bytes[6] as usize;
    if ssid_len == 0 || ssid_len > SSID_MAX_LEN || password_len > PASSWORD_MAX_LEN {
        return None;
    }
    let ssid_end: usize = 12 + ssid_len;
    let password_end: usize = ssid_end + password_len;
    let expected_checksum = join_word(bytes[8], bytes[9], bytes[10], bytes[11]);
    let bytes = bytes.as_slice();
    let found_checksum = checksum(
        slice_subrange(bytes, 0, 8),
        slice_subrange(bytes, 12, password_end),
    );
    proof {
        assert(bytes@.subrange(0, 8) =~= bytes@.take(8));
    }
    if found_checksum != expected_checksum {
        return None;
    }
    let ssid = match utf8_text(slice_subrange(bytes, 12, ssid_end)) {
        Some(ssid) => ssid,
        None => return None,
    };
    let password = match utf8_text(slice_subrange(bytes, ssid_end, password_end)) {
        Some(password) => password,
        None => return None,
    };
    Some(WifiCredentials { ssid: ssid.to_owned(), password: password.to_owned() })
}

/// The credentials that the host provisions are the ones that the firmware loads.
pub proof fn provisioned_credentials_are_loaded(ssid: Seq<char>, password: Seq<char>)
    requires
        credentials_fit(encode_utf8(ssid), encode_utf8(password)),
    ensures
        stored_credentials(
            in_erased_flash(
                config_record(encode_utf8(ssid), encode_utf8(password)),
                CONFIG_SIZE as nat,
            ).take(WIFI_CONFIG_READ_SIZE as int),
        ) == Some((ssid, password)),
{
    let ssid_bytes = encode_utf8(ssid);
    let password_bytes = encode_utf8(password);
    let header = record_header(ssid_bytes.len(), password_bytes.len());
    let hash = fnv1a(header + (ssid_bytes + password_bytes));
    let record = config_record(ssid_bytes, password_bytes);
    let read = in_erased_flash(record, CONFIG_SIZE as nat).take(WIFI_CONFIG_READ_SIZE as int);
    let ssid_end = 12 + ssid_bytes.len();
    let password_end = ssid_end + password_bytes.len();
    encode_utf8_valid_utf8(ssid);
    encode_utf8_valid_utf8(password);
    encode_utf8_decode_utf8(ssid);
    encode_utf8_decode_utf8(password);
    assert(WIFI_CONFIG_MAGIC@.len() == 4);
    assert(le32(hash).len() == 4);
    assert(read.take(4) =~= WIFI_CONFIG_MAGIC@);
    assert(read.take(8) =~= header);
    assert(read.subrange(8, 12) =~= le32(hash));
    let b = read.subrange(8, 12);
    assert(b[0] == read[8] && b[1] == read[9] && b[2] == read[10] && b[3] == read[11]);
    crate::wire::double_words_round_trip(hash, 0, 0, 0, 0);
    assert(header[5] == read[5] && header[6] == read[6] && header[4] == read[4]);
    assert(read.subrange(12, ssid_end as int) =~= ssid_bytes);
    assert(read.subrange(ssid_end as int, password_end as int) =~= password_bytes);
    assert(read.subrange(12, password_end as int) =~= ssid_bytes + password_bytes);
}

/// An erased sector holds no credentials.
pub proof fn erased_flash_holds_no_credentials(bytes: Seq<u8>)
    requires
        bytes.len() == WIFI_CONFIG_READ_SIZE,
        forall|i: int| 0 <= i < bytes.len() ==> bytes[i] == 0xff,
    ensures
        stored_credentials(bytes) is None,
{
    assert(bytes.take(4)[0] == 0xff);
    assert(WIFI_CONFIG_MAGIC@[0] == 0x46);
}

proof fn hash_steps_are_injective(left: u32, right: u32, left_byte: u8, right_byte: u8)
    requires
        next_hash(left, left_byte) == next_hash(right, right_byte),
    ensures
        left == right <==> left_byte == right_byte,
{
    let a = left ^ left_byte as u32;
    let b = right ^ right_byte as u32;
    odd_factors_cancel(a as int, b as int);
    assert(a == b);
    assert(left == right <==> left_byte == right_byte) by (bit_vector)
        requires
            left ^ left_byte as u32 == right ^ right_byte as u32,
    ;
}

proof fn odd_factors_cancel(a: int, b: int)
    requires
        0 <= a < 0x1_0000_0000,
        0 <= b < 0x1_0000_0000,
        (a * 0x0100_0193) % 0x1_0000_0000 == (b * 0x0100_0193) % 0x1_0000_0000,
    ensures
        a == b,
{
    inverse_factor(a);
    inverse_factor(b);
}

proof fn inverse_factor(a: int)
    requires
        0 <= a < 0x1_0000_0000,
    ensures
        (((a * 0x0100_0193) % 0x1_0000_0000) * 0x359c_449b) % 0x1_0000_0000 == a,
{
    let quotient = (a * 0x0100_0193) / 0x1_0000_0000;
    let remainder = (a * 0x0100_0193) % 0x1_0000_0000;
    assert(0x0100_0193 * 0x359c_449b == 1 + 0x0035_9c99 * 0x1_0000_0000);
    assert(remainder * 0x359c_449b == a + (a * 0x0035_9c99 - quotient * 0x359c_449b)
        * 0x1_0000_0000);
    vstd::arithmetic::div_mod::lemma_mod_multiples_vanish(
        a * 0x0035_9c99 - quotient * 0x359c_449b,
        a,
        0x1_0000_0000,
    );
}

/// Changing one byte of a byte string changes its checksum.
pub proof fn corrupted_bytes_change_the_checksum(bytes: Seq<u8>, at: int, byte: u8)
    requires
        0 <= at < bytes.len(),
        byte != bytes[at],
    ensures
        fnv1a(bytes.update(at, byte)) != fnv1a(bytes),
    decreases bytes.len(),
{
    let corrupted = bytes.update(at, byte);
    if at == bytes.len() - 1 {
        assert(corrupted.drop_last() =~= bytes.drop_last());
        if fnv1a(corrupted) == fnv1a(bytes) {
            hash_steps_are_injective(
                fnv1a(corrupted.drop_last()),
                fnv1a(bytes.drop_last()),
                corrupted.last(),
                bytes.last(),
            );
        }
    } else {
        corrupted_bytes_change_the_checksum(bytes.drop_last(), at, byte);
        assert(corrupted.drop_last() =~= bytes.drop_last().update(at, byte));
        if fnv1a(corrupted) == fnv1a(bytes) {
            hash_steps_are_injective(
                fnv1a(corrupted.drop_last()),
                fnv1a(bytes.drop_last()),
                corrupted.last(),
                bytes.last(),
            );
        }
    }
}

/// A record with one changed byte is not loaded, unless the byte is one of the two lengths, which
/// decide what the checksum covers.
pub proof fn corrupted_records_are_refused(bytes: Seq<u8>, at: int, byte: u8)
    requires
        bytes.len() == WIFI_CONFIG_READ_SIZE,
        stored_credentials(bytes) is Some,
        0 <= at < 12 + bytes[5] + bytes[6],
        at != 5 && at != 6,
        byte != bytes[at],
    ensures
        stored_credentials(bytes.update(at, byte)) is None,
{
    let corrupted = bytes.update(at, byte);
    let end = 12 + bytes[5] + bytes[6];
    let hashed = bytes.take(8) + bytes.subrange(12, end);
    let stored = corrupted.take(8) + corrupted.subrange(12, end);
    if at < 4 {
        assert(bytes.take(4)[at] == bytes[at]);
        assert(corrupted.take(4)[at] == byte);
    } else if at < 8 {
        assert(stored =~= hashed.update(at, byte));
        assert(hashed[at] == bytes[at]);
        corrupted_bytes_change_the_checksum(hashed, at, byte);
    } else if at < 12 {
        assert(stored =~= hashed);
        crate::wire::double_words_round_trip(0, bytes[8], bytes[9], bytes[10], bytes[11]);
        crate::wire::double_words_round_trip(
            0,
            corrupted[8],
            corrupted[9],
            corrupted[10],
            corrupted[11],
        );
        let before = seq![bytes[8], bytes[9], bytes[10], bytes[11]];
        let after = seq![corrupted[8], corrupted[9], corrupted[10], corrupted[11]];
        assert(before[at - 8] != after[at - 8]);
    } else {
        assert(stored =~= hashed.update(at - 4, byte));
        assert(hashed[at - 4] == bytes[at]);
        corrupted_bytes_change_the_checksum(hashed, at - 4, byte);
    }
}

/// What a person typed is taken without the line ends after it, and otherwise as it is.
pub proof fn typed_lines_lose_their_end(text: Seq<char>, end: Seq<char>)
    requires
        text.len() > 0 ==> text.last() != '\r' && text.last() != '\n',
        forall|i: int| 0 <= i < end.len() ==> #[trigger] end[i] == '\r' || end[i] == '\n',
    ensures
        without_line_end(text + end) == text,
    decreases end.len(),
{
    if end.len() > 0 {
        assert((text + end).drop_last() =~= text + end.drop_last());
        assert((text + end).last() == end[end.len() - 1]);
        typed_lines_lose_their_end(text, end.drop_last());
    } else {
        assert(text + end =~= text);
    }
}

/// The checksum is the 32-bit FNV-1a hash: it starts with 2166136261, and each byte is combined
/// with it before it is multiplied by 16777619.
pub proof fn checksums_are_fnv_1a(bytes: Seq<u8>, byte: u8)
    ensures
        fnv1a(Seq::empty()) == 2166136261,
        fnv1a(bytes.push(byte)) == (((fnv1a(bytes) ^ (byte as u32)) as int) * 16777619)
            % 4294967296,
{
    assert(bytes.push(byte).drop_last() =~= bytes);
}

/// A record is `FLWC`, the version 1, the two lengths, an erased byte, the checksum of what comes
/// before it and after it, low byte first, the SSID and the password; erased flash follows it.
pub proof fn records_have_their_layout(ssid: Seq<u8>, password: Seq<u8>, length: nat)
    requires
        1 <= ssid.len() <= 32,
        password.len() <= 63,
        length >= 107,
    ensures
        ({
            let image = in_erased_flash(config_record(ssid, password), length);
            let end = 12 + ssid.len() + password.len();
            let hash = fnv1a(image.take(8) + image.subrange(12, end as int));
            &&& image.len() == length
            &&& image.take(4) == seq![70u8, 76u8, 87u8, 67u8]
            &&& image[4] == 1
            &&& image[5] == ssid.len()
            &&& image[6] == password.len()
            &&& image[7] == 255
            &&& image[8] + 256 * image[9] + 65536 * image[10] + 16777216 * image[11] == hash
            &&& image.subrange(12, 12 + ssid.len() as int) == ssid
            &&& image.subrange(12 + ssid.len() as int, end as int) == password
            &&& forall|i: int| end <= i < length ==> #[trigger] image[i] == 255
        }),
{
    let record = config_record(ssid, password);
    let image = in_erased_flash(record, length);
    let end = 12 + ssid.len() + password.len();
    let header = record_header(ssid.len(), password.len());
    let hash = fnv1a(header + (ssid + password));
    assert(WIFI_CONFIG_MAGIC@.len() == 4);
    assert(le32(hash).len() == 4);
    crate::wire::bytes_are_digits_to_the_base_256(0, hash, 0, 0, 0, 0);
    assert(image.take(8) =~= header);
    assert(image.take(4) =~= seq![70u8, 76u8, 87u8, 67u8]);
    assert(image.subrange(12, end as int) =~= ssid + password);
    assert(image.subrange(12, 12 + ssid.len() as int) =~= ssid);
    assert(image.subrange(12 + ssid.len() as int, end as int) =~= password);
    let bytes = le32(hash);
    assert(image[8] == bytes[0] && image[9] == bytes[1] && image[10] == bytes[2] && image[11]
        == bytes[3]);
    assert(header[4] == image[4] && header[5] == image[5] && header[6] == image[6] && header[7]
        == image[7]);
}

/// A record is loaded exactly if it is `FLWC` with the version 1, the lengths are in range, the
/// checksum is that of the bytes before it and of the SSID and the password after it, and both are
/// UTF-8; what is loaded are these bytes.
pub proof fn intact_records_are_loaded(bytes: Seq<u8>)
    requires
        bytes.len() == 108,
    ensures
        ({
            let ssid = bytes.subrange(12, 12 + bytes[5]);
            let password = bytes.subrange(12 + bytes[5], 12 + bytes[5] + bytes[6]);
            let intact = bytes[0] == 70 && bytes[1] == 76 && bytes[2] == 87 && bytes[3] == 67
                && bytes[4] == 1 && 1 <= bytes[5] <= 32 && bytes[6] <= 63 && bytes[8] + 256
                * bytes[9] + 65536 * bytes[10] + 16777216 * bytes[11] == fnv1a(
                bytes.take(8) + ssid + password,
            ) && valid_utf8(ssid) && valid_utf8(password);
            stored_credentials(bytes) == if intact {
                Some((decode_utf8(ssid), decode_utf8(password)))
            } else {
                None
            }
        }),
{
    let ssid = bytes.subrange(12, 12 + bytes[5]);
    let password = bytes.subrange(12 + bytes[5], 12 + bytes[5] + bytes[6]);
    let magic = bytes.take(4);
    assert(WIFI_CONFIG_MAGIC@.len() == 4);
    assert(magic[0] == bytes[0] && magic[1] == bytes[1] && magic[2] == bytes[2] && magic[3]
        == bytes[3]);
    if bytes[0] == 70 && bytes[1] == 76 && bytes[2] == 87 && bytes[3] == 67 {
        assert(magic =~= WIFI_CONFIG_MAGIC@);
    }
    crate::wire::bytes_are_digits_to_the_base_256(0, 0, bytes[8], bytes[9], bytes[10], bytes[11]);
    if bytes[5] <= 32 && bytes[6] <= 63 {
        assert(bytes.take(8) + bytes.subrange(12, 12 + bytes[5] + bytes[6]) =~= bytes.take(8) + ssid
            + password);
    }
}

/// A record holds every SSID of 1 to 32 bytes with every password of up to 63 bytes, and no other.
pub proof fn records_hold_credentials_of_these_lengths(ssid: Seq<u8>, password: Seq<u8>)
    ensures
        credentials_fit(ssid, password) <==> 0 < ssid.len() < 33 && password.len() < 64,
{
}

} // verus!
