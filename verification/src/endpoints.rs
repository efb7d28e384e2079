//! Addresses of the catalog and of the popularity service.

use vstd::prelude::*;
use vstd::string::StringSliceAdditionalSpecFns;

verus! {

/// Where the catalog is fetched from.
pub const DATABASE_URL: &'static str = "https://raw.githubusercontent.com/zeozeozeo/clickpack-db/main/db.json";

/// Directory under the system's temporary directory that receives packs
/// downloaded with one click.
pub const TEMP_DIRNAME: &'static str = "zcb-clickpackdb";

/// Bytes that percent-encoding leaves as they are: ASCII letters, digits,
/// `-`, `.`, `_` and `~`.
pub open spec fn is_unreserved(byte: u8) -> bool {
    ||| 0x30 <= byte <= 0x39
    ||| 0x41 <= byte <= 0x5a
    ||| 0x61 <= byte <= 0x7a
    ||| byte == 0x2d
    ||| byte == 0x2e
    ||| byte == 0x5f
    ||| byte == 0x7e
}

/// The upper-case hexadecimal digit for a value below sixteen.
pub open spec fn hex_digit(value: int) -> char {
    if value < 10 {
        (0x30 + value) as char
    } else {
        (0x41 + value - 10) as char
    }
}

/// One byte, percent-encoded.
pub open spec fn encoded_byte(byte: u8) -> Seq<char> {
    if is_unreserved(byte) {
        seq![byte as char]
    } else {
        seq!['%', hex_digit(byte as int / 16), hex_digit(byte as int % 16)]
    }
}

/// A byte string, percent-encoded byte by byte.
pub open spec fn percent_encoded(bytes: Seq<u8>) -> Seq<char>
    decreases bytes.len(),
{
    if bytes.len() == 0 {
        Seq::<char>::empty()
    } else {
        percent_encoded(bytes.drop_last()) + encoded_byte(bytes.last())
    }
}

/// `urlencoding::encode`: the UTF-8 bytes of `text`, each one kept if it is
/// unreserved and otherwise written as `%` and two upper-case hexadecimal
/// digits.
#[verifier::external_body]
fn url_encode(text: &str) -> (encoded: String)
    ensures
        encoded@ == percent_encoded(text.spec_bytes()),
{
    urlencoding::encode(text).into_owned()
}

/// Address that lists the download counts of all packs.
pub fn downloads_endpoint(hiatus: &str) -> (url: String)
    ensures
        url@ == hiatus@ + "/downloads/all"@,
{
    hiatus.to_owned().concat("/downloads/all")
}

/// Address that counts one more download of the pack `name`.
pub fn inc_endpoint(hiatus: &str, name: &str) -> (url: String)
    ensures
        url@ == hiatus@ + "/inc/"@ + percent_encoded(name.spec_bytes()),
{
    let encoded = url_encode(name);
    hiatus.to_owned().concat("/inc/").concat(encoded.as_str())
}

} // verus!
