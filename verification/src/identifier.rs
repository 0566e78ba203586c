//! Identifiers, names and other short texts that the protocols accept.

use crate::failure::{failure, BridgeFsError, DescriptorError, Failure};
use crate::text::{chars_of, same_text, strip_prefix, strip_suffix};
use vstd::prelude::*;
use vstd::utf8::*;

verus! {

/// The greatest integer that JSON and Lua numbers hold exactly.
pub const MAX_JSON_INTEGER: u64 = 9_007_199_254_740_991;

/// The greatest length of a GUI instance name.
pub const MAX_INSTANCE_BYTES: usize = 160;

/// The lowercase character that writes the hexadecimal digit `d`.
pub open spec fn hex_char(d: nat) -> char {
    if d < 10 {
        (48 + d) as char
    } else {
        (87 + d) as char
    }
}

/// Whether a character is a lowercase hexadecimal digit.
pub open spec fn is_hex_char(c: char) -> bool {
    '0' <= c <= '9' || 'a' <= c <= 'f'
}

/// The value of a lowercase hexadecimal digit.
pub open spec fn hex_char_value(c: char) -> nat {
    if c <= '9' {
        (c as nat - 48) as nat
    } else {
        (c as nat - 87) as nat
    }
}

/// The last `count` hexadecimal digits of `n`, in lowercase.
pub open spec fn hex_digits(n: nat, count: nat) -> Seq<char>
    decreases count,
{
    if count == 0 {
        Seq::empty()
    } else {
        hex_digits(n / 16, (count - 1) as nat).push(hex_char(n % 16))
    }
}

/// The number that a row of hexadecimal digits writes.
pub open spec fn hex_value(digits: Seq<char>) -> nat
    decreases digits.len(),
{
    if digits.len() == 0 {
        0
    } else {
        hex_value(digits.drop_last()) * 16 + hex_char_value(digits.last())
    }
}

/// 32 hexadecimal digits in groups of 8, 4, 4, 4 and 12, with hyphens between.
pub open spec fn hyphenated(digits: Seq<char>) -> Seq<char> {
    digits.subrange(0, 8) + seq!['-'] + digits.subrange(8, 12) + seq!['-'] + digits.subrange(12, 16)
        + seq!['-'] + digits.subrange(16, 20) + seq!['-'] + digits.subrange(20, 32)
}

/// The canonical spelling of the UUID with this value: lowercase, hyphenated.
pub open spec fn uuid_text(value: u128) -> Seq<char> {
    hyphenated(hex_digits(value as nat, 32))
}

/// Whether a text is the canonical spelling of some UUID.
pub open spec fn is_canonical_uuid(text: Seq<char>) -> bool {
    exists|value: u128| text == #[trigger] uuid_text(value)
}

/// The UUID that `<uuid::Uuid as FromStr>::from_str` reads from a text, as a
/// 128-bit number.
pub uninterp spec fn uuid_value(text: Seq<char>) -> Option<u128>;

/// Reads a UUID with `<uuid::Uuid as FromStr>::from_str`, which takes several
/// spellings. The result is the named one, and a canonical spelling gives back
/// the value that it writes.
#[verifier::external_body]
pub(crate) fn parse_uuid(text: &str) -> (value: Option<u128>)
    ensures
        value == uuid_value(text@),
        forall|n: u128| text@ == #[trigger] uuid_text(n) ==> value == Some(n),
{
    text.parse::<uuid::Uuid>().ok().map(|parsed| parsed.as_u128())
}

/// Writes a UUID with `<uuid::Uuid as Display>::fmt`, which uses the canonical
/// spelling.
#[verifier::external_body]
pub(crate) fn format_uuid(value: u128) -> (text: String)
    ensures
        text@ == uuid_text(value),
{
    uuid::Uuid::from_u128(value).to_string()
}

/// Draws a random UUID with `uuid::Uuid::new_v4`. Nothing is claimed of it.
#[verifier::external_body]
pub(crate) fn draw_uuid() -> (value: u128)
{
    uuid::Uuid::new_v4().as_u128()
}

/// Draws a fresh identifier in canonical spelling.
pub fn fresh_identifier() -> (text: String)
    ensures
        is_canonical_uuid(text@),
{
    let value: u128 = draw_uuid();
    format_uuid(value)
}

proof fn lemma_hex_digits(n: nat, count: nat)
    ensures
        hex_digits(n, count).len() == count,
        forall|i: int| 0 <= i < count ==> is_hex_char(#[trigger] hex_digits(n, count)[i]),
    decreases count,
{
    if count > 0 {
        lemma_hex_digits(n / 16, (count - 1) as nat);
    }
}

proof fn lemma_hex_value_digits(digits: Seq<char>)
    requires
        forall|i: int| 0 <= i < digits.len() ==> is_hex_char(#[trigger] digits[i]),
    ensures
        hex_digits(hex_value(digits), digits.len()) == digits,
    decreases digits.len(),
{
    if digits.len() > 0 {
        let head = digits.drop_last();
        let d = hex_char_value(digits.last());
        assert forall|i: int| 0 <= i < head.len() implies is_hex_char(#[trigger] head[i]) by {
            assert(head[i] == digits[i]);
        }
        lemma_hex_value_digits(head);
        assert(is_hex_char(digits[digits.len() - 1]));
        assert(d < 16 && hex_char(d) == digits.last());
        let v = hex_value(digits);
        assert(v == hex_value(head) * 16 + d);
        assert(v / 16 == hex_value(head) && v % 16 == d);
        assert(head.push(digits.last()) =~= digits);
    } else {
        assert(digits =~= Seq::<char>::empty());
    }
}

/// Sixteen to the power `n`.
pub open spec fn pow16(n: nat) -> nat
    decreases n,
{
    if n == 0 {
        1
    } else {
        16 * pow16((n - 1) as nat)
    }
}

proof fn lemma_hex_value_bound(digits: Seq<char>)
    requires
        forall|i: int| 0 <= i < digits.len() ==> is_hex_char(#[trigger] digits[i]),
    ensures
        hex_value(digits) < pow16(digits.len()),
    decreases digits.len(),
{
    if digits.len() > 0 {
        let head = digits.drop_last();
        assert forall|i: int| 0 <= i < head.len() implies is_hex_char(#[trigger] head[i]) by {
            assert(head[i] == digits[i]);
        }
        lemma_hex_value_bound(head);
        assert(is_hex_char(digits[digits.len() - 1]));
        assert(pow16(digits.len()) == 16 * pow16(head.len()));
    }
}

/// Whether a text has the shape of a canonical UUID: 36 characters, hyphens at
/// places 8, 13, 18 and 23, lowercase hexadecimal digits elsewhere.
pub open spec fn uuid_shape(text: Seq<char>) -> bool {
    &&& text.len() == 36
    &&& forall|i: int|
        0 <= i < 36 ==> if i == 8 || i == 13 || i == 18 || i == 23 {
            #[trigger] text[i] == '-'
        } else {
            is_hex_char(text[i])
        }
}

/// A text is a canonical UUID exactly when it has the canonical shape.
pub proof fn law_canonical_uuid_is_a_shape(text: Seq<char>)
    ensures
        is_canonical_uuid(text) <==> uuid_shape(text),
{
    if is_canonical_uuid(text) {
        let value = choose|value: u128| text == #[trigger] uuid_text(value);
        let d = hex_digits(value as nat, 32);
        lemma_hex_digits(value as nat, 32);
        assert(uuid_shape(text)) by {
            assert(text.len() == 36);
            assert forall|i: int| 0 <= i < 36 implies if i == 8 || i == 13 || i == 18 || i == 23 {
                #[trigger] text[i] == '-'
            } else {
                is_hex_char(text[i])
            } by {
                if i < 8 {
                    assert(text[i] == d[i]);
                } else if 8 < i < 13 {
                    assert(text[i] == d[i - 1]);
                } else if 13 < i < 18 {
                    assert(text[i] == d[i - 2]);
                } else if 18 < i < 23 {
                    assert(text[i] == d[i - 3]);
                } else if 23 < i {
                    assert(text[i] == d[i - 4]);
                }
            }
        }
    }
    if uuid_shape(text) {
        let d = text.subrange(0, 8) + text.subrange(9, 13) + text.subrange(14, 18)
            + text.subrange(19, 23) + text.subrange(24, 36);
        assert(d.len() == 32);
        assert forall|i: int| 0 <= i < 32 implies is_hex_char(#[trigger] d[i]) by {
            if i < 8 {
                assert(d[i] == text[i]);
            } else if i < 12 {
                assert(d[i] == text[i + 1]);
            } else if i < 16 {
                assert(d[i] == text[i + 2]);
            } else if i < 20 {
                assert(d[i] == text[i + 3]);
            } else {
                assert(d[i] == text[i + 4]);
            }
        }
        lemma_hex_value_digits(d);
        lemma_hex_value_bound(d);
        assert(pow16(32) == 0x1_0000_0000_0000_0000_0000_0000_0000_0000) by {
            reveal_with_fuel(pow16, 33);
        }
        let value = hex_value(d) as u128;
        assert(value as nat == hex_value(d));
        assert(hex_digits(value as nat, 32) == d);
        assert(text =~= hyphenated(d));
        assert(text == uuid_text(value));
    }
}

/// The first reason why a text is no canonical UUID, worded for a named field
/// of a descriptor.
pub open spec fn uuid_failure(name: Seq<char>, value: Seq<char>) -> Option<Failure> {
    if is_canonical_uuid(value) {
        None
    } else if uuid_value(value) is None {
        Some(failure("invalid_descriptor"@, name + " is not a UUID"@))
    } else {
        Some(failure("invalid_descriptor"@, name + " is not a canonical lowercase UUID"@))
    }
}

/// Whether a refusal is owed and, if so, that it is this one.
pub open spec fn refuses<T, E: View<V = Failure>>(result: Result<T, E>, owed: Option<Failure>) -> bool {
    match result {
        Ok(_) => owed is None,
        Err(error) => owed == Some(error@),
    }
}

/// Accepts exactly the canonical lowercase spelling of a UUID.
pub fn validate_uuid(name: &str, value: &str) -> (result: Result<(), DescriptorError>)
    ensures
        refuses(result, uuid_failure(name@, value@)),
{
    match parse_uuid(value) {
        None => {
            Err(
                DescriptorError::new(
                    "invalid_descriptor",
                    name.to_owned().concat(" is not a UUID"),
                ),
            )
        },
        Some(parsed) => {
            let canonical = format_uuid(parsed);
            if same_text(canonical.as_str(), value) {
                Ok(())
            } else {
                Err(
                    DescriptorError::new(
                        "invalid_descriptor",
                        name.to_owned().concat(" is not a canonical lowercase UUID"),
                    ),
                )
            }
        },
    }
}

/// The first reason why a text is no request identifier.
pub open spec fn uid_failure(uid: Seq<char>) -> Option<Failure> {
    if is_canonical_uuid(uid) {
        None
    } else if uuid_value(uid) is None {
        Some(failure("invalid_uid"@, "request uid is not a UUID"@))
    } else {
        Some(failure("invalid_uid"@, "request uid must use canonical lowercase UUID spelling"@))
    }
}

/// Accepts exactly the canonical lowercase spelling of a UUID as a request
/// identifier.
pub fn validate_uid(uid: &str) -> (result: Result<(), BridgeFsError>)
    ensures
        refuses(result, uid_failure(uid@)),
{
    match parse_uuid(uid) {
        None => Err(BridgeFsError::new("invalid_uid", "request uid is not a UUID".to_owned())),
        Some(parsed) => {
            let canonical = format_uuid(parsed);
            if same_text(canonical.as_str(), uid) {
                Ok(())
            } else {
                Err(
                    BridgeFsError::new(
                        "invalid_uid",
                        "request uid must use canonical lowercase UUID spelling".to_owned(),
                    ),
                )
            }
        },
    }
}

/// Whether a name can stand as one component of a path: not empty, not `.` or
/// `..`, at most 255 bytes, without NUL and without `/`.
pub open spec fn is_component(name: Seq<char>) -> bool {
    &&& name.len() > 0
    &&& name != "."@
    &&& name != ".."@
    &&& encode_utf8(name).len() <= 255
    &&& !encode_utf8(name).contains(0)
    &&& !encode_utf8(name).contains(47)
}

/// Whether a name can stand as one component of a path.
pub fn safe_component(name: &str) -> (safe: bool)
    ensures
        safe == is_component(name@),
{
    if name.is_empty() || same_text(name, ".") || same_text(name, "..") || name.len() > 255 {
        return false;
    }
    let bytes = name.as_bytes();
    let mut i: usize = 0;
    while i < bytes.len()
        invariant
            i <= bytes@.len(),
            bytes@ == encode_utf8(name@),
            forall|k: int| 0 <= k < i ==> bytes@[k] != 0 && bytes@[k] != 47,
        decreases bytes@.len() - i,
    {
        if bytes[i] == 0 || bytes[i] == 47 {
            assert(bytes@.contains(bytes@[i as int]));
            return false;
        }
        i += 1;
    }
    true
}

/// Accepts a path component for the descriptor protocol.
pub fn validate_component(name: &str) -> (result: Result<(), DescriptorError>)
    ensures
        refuses(result, component_failure(name@)),
{
    if safe_component(name) {
        Ok(())
    } else {
        Err(DescriptorError::new("invalid_path", "unsafe fixed-path component".to_owned()))
    }
}

/// The refusal of a name that is no path component.
pub open spec fn component_failure(name: Seq<char>) -> Option<Failure> {
    if is_component(name) {
        None
    } else {
        Some(failure("invalid_path"@, "unsafe fixed-path component"@))
    }
}

/// The refusal of a name that is no path component of the bridge.
pub open spec fn bridge_component_failure(name: Seq<char>) -> Option<Failure> {
    if is_component(name) {
        None
    } else {
        Some(failure("invalid_component"@, "unsafe bridge path component"@))
    }
}

/// Accepts a path component for the bridge protocol.
pub fn validate_bridge_component(name: &str) -> (result: Result<(), BridgeFsError>)
    ensures
        refuses(result, bridge_component_failure(name@)),
{
    if safe_component(name) {
        Ok(())
    } else {
        Err(BridgeFsError::new("invalid_component", "unsafe bridge path component".to_owned()))
    }
}

/// Whether a text holds no control byte (below space, or DEL).
pub open spec fn is_printable(text: Seq<char>) -> bool {
    forall|i: int|
        0 <= i < encode_utf8(text).len() ==> (#[trigger] encode_utf8(text)[i]) >= 32
            && encode_utf8(text)[i] != 127
}

/// Whether a text is not empty, has at most `maximum` bytes and holds no
/// control byte.
pub open spec fn is_bounded_text(text: Seq<char>, maximum: nat) -> bool {
    &&& text.len() > 0
    &&& encode_utf8(text).len() <= maximum
    &&& is_printable(text)
}

/// Whether a text is bounded and printable.
pub fn bounded_text(text: &str, maximum: usize) -> (bounded: bool)
    ensures
        bounded == is_bounded_text(text@, maximum as nat),
{
    if text.is_empty() || text.len() > maximum {
        return false;
    }
    let bytes = text.as_bytes();
    let mut i: usize = 0;
    while i < bytes.len()
        invariant
            i <= bytes@.len(),
            bytes@ == encode_utf8(text@),
            forall|k: int| 0 <= k < i ==> bytes@[k] >= 32 && bytes@[k] != 127,
        decreases bytes@.len() - i,
    {
        if bytes[i] < 32 || bytes[i] == 127 {
            assert(encode_utf8(text@)[i as int] < 32 || encode_utf8(text@)[i as int] == 127);
            return false;
        }
        i += 1;
    }
    true
}

/// The refusal of a named text that is not bounded and printable.
pub open spec fn bounded_text_failure(
    name: Seq<char>,
    value: Seq<char>,
    maximum: nat,
) -> Option<Failure> {
    if is_bounded_text(value, maximum) {
        None
    } else {
        Some(
            failure(
                "invalid_descriptor"@,
                name + " is empty, oversized, or contains control bytes"@,
            ),
        )
    }
}

/// Accepts a bounded printable text.
pub fn validate_bounded_text(name: &str, value: &str, maximum: usize) -> (result: Result<
    (),
    DescriptorError,
>)
    ensures
        refuses(result, bounded_text_failure(name@, value@, maximum as nat)),
{
    if bounded_text(value, maximum) {
        Ok(())
    } else {
        Err(
            DescriptorError::new(
                "invalid_descriptor",
                name.to_owned().concat(" is empty, oversized, or contains control bytes"),
            ),
        )
    }
}

/// Whether a byte is an ASCII letter or digit.
pub open spec fn is_alphanumeric(byte: u8) -> bool {
    48 <= byte <= 57 || 65 <= byte <= 90 || 97 <= byte <= 122
}

/// Whether a text is a GUI instance name: 2 to 160 bytes, each an ASCII letter,
/// digit, `-` or `_`, the first a letter or digit.
pub open spec fn is_instance(instance: Seq<char>) -> bool {
    let bytes = encode_utf8(instance);
    &&& 2 <= bytes.len() <= MAX_INSTANCE_BYTES
    &&& is_alphanumeric(bytes[0])
    &&& forall|i: int|
        0 <= i < bytes.len() ==> is_alphanumeric(#[trigger] bytes[i]) || bytes[i] == 45 || bytes[i]
            == 95
}

/// The refusal of a text that is no GUI instance name.
pub open spec fn instance_failure(instance: Seq<char>) -> Option<Failure> {
    if is_instance(instance) {
        None
    } else {
        Some(
            failure("invalid_instance"@, "GUI instance must be 2-160 safe ASCII characters"@),
        )
    }
}

fn alphanumeric(byte: u8) -> (yes: bool)
    ensures
        yes == is_alphanumeric(byte),
{
    (48 <= byte && byte <= 57) || (65 <= byte && byte <= 90) || (97 <= byte && byte <= 122)
}

fn instance_name(instance: &str) -> (accepted: bool)
    ensures
        accepted == is_instance(instance@),
{
    let bytes = instance.as_bytes();
    if bytes.len() < 2 || bytes.len() > MAX_INSTANCE_BYTES || !alphanumeric(bytes[0]) {
        return false;
    }
    let mut i: usize = 0;
    while i < bytes.len()
        invariant
            i <= bytes@.len(),
            bytes@ == encode_utf8(instance@),
            forall|k: int|
                0 <= k < i ==> is_alphanumeric(#[trigger] bytes@[k]) || bytes@[k] == 45 || bytes@[k]
                    == 95,
        decreases bytes@.len() - i,
    {
        if !alphanumeric(bytes[i]) && bytes[i] != 45 && bytes[i] != 95 {
            return false;
        }
        i += 1;
    }
    true
}

/// Accepts a GUI instance name.
pub fn validate_instance(instance: &str) -> (result: Result<(), BridgeFsError>)
    ensures
        refuses(result, instance_failure(instance@)),
{
    if instance_name(instance) {
        Ok(())
    } else {
        Err(
            BridgeFsError::new(
                "invalid_instance",
                "GUI instance must be 2-160 safe ASCII characters".to_owned(),
            ),
        )
    }
}

/// An instance name is always a safe path component.
pub proof fn law_instance_is_component(instance: Seq<char>)
    requires
        is_instance(instance),
    ensures
        is_component(instance),
{
    let bytes = encode_utf8(instance);
    if instance.len() == 0 {
        assert(bytes.len() == 0);
    }
    reveal_strlit(".");
    reveal_strlit("..");
    if instance == "."@ || instance == ".."@ {
        is_ascii_chars_encode_utf8(instance);
        assert(instance[0] == '.');
    }
    if bytes.contains(0) {
        let i = choose|i: int| 0 <= i < bytes.len() && bytes[i] == 0;
        assert(is_alphanumeric(bytes[i]) || bytes[i] == 45 || bytes[i] == 95);
    }
    if bytes.contains(47) {
        let i = choose|i: int| 0 <= i < bytes.len() && bytes[i] == 47;
        assert(is_alphanumeric(bytes[i]) || bytes[i] == 45 || bytes[i] == 95);
    }
}

/// Whether every byte of a text is a lowercase hexadecimal digit.
pub open spec fn all_lower_hex(text: Seq<char>) -> bool {
    forall|i: int| 0 <= i < text.len() ==> is_hex_char(#[trigger] text[i])
}

/// Whether a text consists of lowercase hexadecimal digits only.
pub fn is_lower_hex(value: &str) -> (yes: bool)
    ensures
        yes == all_lower_hex(value@),
{
    let chars = chars_of(value);
    let mut i: usize = 0;
    while i < chars.len()
        invariant
            i <= chars@.len(),
            chars@ == value@,
            forall|k: int| 0 <= k < i ==> is_hex_char(#[trigger] value@[k]),
        decreases chars@.len() - i,
    {
        let c = chars[i];
        if !('0' <= c && c <= '9') && !('a' <= c && c <= 'f') {
            assert(!is_hex_char(value@[i as int]));
            return false;
        }
        i += 1;
    }
    true
}

/// The request identifier that a spool entry's name carries: the name is
/// `req-`, a canonical UUID and `.json`.
pub open spec fn request_uid(name: Seq<char>) -> Option<Seq<char>> {
    match crate::text::without_prefix(name, "req-"@) {
        Some(rest) => match crate::text::without_suffix(rest, ".json"@) {
            Some(uid) => if is_canonical_uuid(uid) {
                Some(uid)
            } else {
                None
            },
            None => None,
        },
        None => None,
    }
}

/// Reads the request identifier out of a spool entry's name.
pub fn request_uid_from_name(name: &str) -> (uid: Option<String>)
    ensures
        crate::text::optional_string(uid) == request_uid(name@),
{
    match strip_prefix(name, "req-") {
        Some(rest) => match strip_suffix(rest, ".json") {
            Some(uid) => match validate_uid(uid) {
                Ok(()) => Some(uid.to_owned()),
                Err(_) => None,
            },
            None => None,
        },
        None => None,
    }
}

/// The name under which a request with this identifier is filed.
pub open spec fn request_name(uid: Seq<char>) -> Seq<char> {
    "req-"@ + uid + ".json"@
}

/// The filed name of a request gives back its identifier, and only the filed
/// name of an identifier gives it.
pub proof fn law_request_name_carries_uid(name: Seq<char>, uid: Seq<char>)
    ensures
        request_uid(name) == Some(uid) <==> is_canonical_uuid(uid) && name == request_name(uid),
{
    reveal_strlit("req-");
    reveal_strlit(".json");
    if is_canonical_uuid(uid) && name == request_name(uid) {
        assert(name.take(4) =~= "req-"@);
        let rest = name.skip(4);
        assert(rest =~= uid + ".json"@);
        assert(rest.skip(rest.len() - 5) =~= ".json"@);
        assert(rest.take(rest.len() - 5) =~= uid);
    }
    if request_uid(name) == Some(uid) {
        let rest = name.skip(4);
        assert(name =~= name.take(4) + rest);
        assert(rest =~= uid + ".json"@);
        assert(name =~= request_name(uid));
    }
}

/// Exactly the canonical spellings are identifiers, of requests and of descriptors
/// alike, and each kind of refusal has its code.
pub proof fn law_identifiers_are_canonical(name: Seq<char>, text: Seq<char>)
    ensures
        uid_failure(text) is None <==> is_canonical_uuid(text),
        uuid_failure(name, text) is None <==> is_canonical_uuid(text),
        uid_failure(text) matches Some(refusal) ==> refusal.code == "invalid_uid"@,
        uuid_failure(name, text) matches Some(refusal) ==> refusal.code == "invalid_descriptor"@,
{
}

/// An instance is named by 2 to 160 letters, digits, hyphens and underscores, the
/// first of them a letter or a digit.
pub proof fn law_instance_names(instance: Seq<char>)
    requires
        is_ascii_chars(instance),
    ensures
        is_instance(instance) <==> {
            &&& 2 <= instance.len() <= 160
            &&& is_letter_or_digit(instance[0])
            &&& forall|i: int|
                0 <= i < instance.len() ==> is_letter_or_digit(#[trigger] instance[i])
                    || instance[i] == '-' || instance[i] == '_'
        },
        instance_failure(instance) is None <==> is_instance(instance),
{
    is_ascii_chars_encode_utf8(instance);
    let bytes = encode_utf8(instance);
    assert forall|i: int| 0 <= i < instance.len() implies bytes[i] == instance[i] as u8
        && is_alphanumeric(bytes[i]) == is_letter_or_digit(#[trigger] instance[i]) by {}
    if is_instance(instance) {
        assert forall|i: int| 0 <= i < instance.len() implies is_letter_or_digit(
            #[trigger] instance[i],
        ) || instance[i] == '-' || instance[i] == '_' by {
            assert(is_alphanumeric(bytes[i]) || bytes[i] == 45 || bytes[i] == 95);
        }
    }
    if 2 <= instance.len() <= 160 && is_letter_or_digit(instance[0]) && (forall|i: int|
        0 <= i < instance.len() ==> is_letter_or_digit(#[trigger] instance[i]) || instance[i] == '-'
            || instance[i] == '_') {
        assert forall|i: int| 0 <= i < bytes.len() implies is_alphanumeric(#[trigger] bytes[i])
            || bytes[i] == 45 || bytes[i] == 95 by {
            assert(is_letter_or_digit(instance[i]) || instance[i] == '-' || instance[i] == '_');
        }
    }
}

/// Whether a character is an ASCII letter or digit.
pub open spec fn is_letter_or_digit(c: char) -> bool {
    'a' <= c <= 'z' || 'A' <= c <= 'Z' || '0' <= c <= '9'
}

/// A single name below a directory is not empty, does not lead to the directory or
/// its parent, has at most 255 bytes and holds neither a separator nor a NUL.
pub proof fn law_component_is_one_name(name: Seq<char>)
    ensures
        is_component(name) <==> {
            let bytes = encode_utf8(name);
            &&& name.len() > 0
            &&& name != seq!['.']
            &&& name != seq!['.', '.']
            &&& bytes.len() <= 255
            &&& forall|i: int| 0 <= i < bytes.len() ==> (#[trigger] bytes[i]) != 0 && bytes[i] != 47
        },
        component_failure(name) is None <==> is_component(name),
        bridge_component_failure(name) is None <==> is_component(name),
{
    reveal_strlit(".");
    reveal_strlit("..");
    assert("."@ =~= seq!['.']);
    assert(".."@ =~= seq!['.', '.']);
    let bytes = encode_utf8(name);
    if is_component(name) {
        assert forall|i: int| 0 <= i < bytes.len() implies (#[trigger] bytes[i]) != 0 && bytes[i]
            != 47 by {
            assert(bytes.contains(bytes[i]));
        }
    }
}

/// A bounded text is not empty, within its bound, and free of control bytes.
pub proof fn law_bounded_text_is_printable(name: Seq<char>, text: Seq<char>, maximum: nat)
    ensures
        is_bounded_text(text, maximum) <==> {
            let bytes = encode_utf8(text);
            &&& text.len() > 0
            &&& bytes.len() <= maximum
            &&& forall|i: int|
                0 <= i < bytes.len() ==> (#[trigger] bytes[i]) >= 32 && bytes[i] != 127
        },
        bounded_text_failure(name, text, maximum) is None <==> is_bounded_text(text, maximum),
{
}

} // verus!
