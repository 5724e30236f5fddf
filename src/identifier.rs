//! Content-derived identifiers: how they are written, and how they are made.
use vstd::prelude::*;
use crate::chars::{chars_of, hex_digit, is_ascii_digit, is_ascii_hex};
use crate::error::ValidationError;

verus! {

/// The positions of the four hyphens in the 36-character hyphenated form.
pub open spec fn is_hyphen_position(i: int) -> bool {
    i == 8 || i == 13 || i == 18 || i == 23
}

/// The hyphenated form: five groups of hexadecimal digits, of lengths 8, 4,
/// 4, 4 and 12, joined by single hyphens. Digits may be in either case.
pub open spec fn is_uuid_text(s: Seq<char>) -> bool {
    &&& s.len() == 36
    &&& forall|i: int|
        0 <= i < 36 ==> if is_hyphen_position(i) {
            #[trigger] s[i] == '-'
        } else {
            is_ascii_hex(s[i])
        }
}

/// A lower-case hexadecimal digit.
pub open spec fn is_lower_hex(c: char) -> bool {
    is_ascii_digit(c) || ('a' <= c && c <= 'f')
}

/// The form in which identifiers are generated: the hyphenated form with
/// lower-case digits only.
pub open spec fn is_canonical_id(s: Seq<char>) -> bool {
    &&& s.len() == 36
    &&& forall|i: int|
        0 <= i < 36 ==> if is_hyphen_position(i) {
            #[trigger] s[i] == '-'
        } else {
            is_lower_hex(s[i])
        }
}

/// The identifier derived from a byte content: a name-based (SHA-1, version
/// 5) UUID of the bytes under the nil namespace, in hyphenated form.
pub uninterp spec fn content_id_of(bytes: Seq<u8>) -> Seq<char>;

/// Relies on uuid's `Uuid::new_v5` with the nil namespace (`Uuid::default`)
/// and on its hyphenated `Display`, which writes the 16 bytes as lower-case
/// hexadecimal digits with hyphens at positions 8, 13, 18 and 23. The text
/// depends on the bytes alone.
#[verifier::external_body]
fn uuid_v5_hyphenated(bytes: &[u8]) -> (r: String)
    ensures
        r@ == content_id_of(bytes@),
        is_canonical_id(r@),
{
    uuid::Uuid::new_v5(&uuid::Uuid::default(), bytes).to_hyphenated().to_string()
}

/// Whether `uuid` is in the hyphenated 8-4-4-4-12 form, with hexadecimal
/// digits of either case, as a whole string.
pub fn validate_uuid(uuid: &str) -> (r: bool)
    ensures
        r == is_uuid_text(uuid@),
{
    let cs = chars_of(uuid);
    if cs.len() != 36 {
        return false;
    }
    let mut i: usize = 0;
    while i < 36
        invariant
            cs@ == uuid@,
            cs@.len() == 36,
            i <= 36,
            forall|j: int|
                0 <= j < i ==> if is_hyphen_position(j) {
                    #[trigger] cs@[j] == '-'
                } else {
                    is_ascii_hex(cs@[j])
                },
        decreases 36 - i,
    {
        let c = cs[i];
        if i == 8 || i == 13 || i == 18 || i == 23 {
            if c != '-' {
                return false;
            }
        } else if !hex_digit(c) {
            return false;
        }
        i += 1;
    }
    true
}

/// The identifier of a content. Equal contents give equal identifiers, in
/// every process; the result is always in the canonical form.
pub fn generate_id(buffer: &[u8]) -> (r: String)
    ensures
        r@ == content_id_of(buffer@),
        is_canonical_id(r@),
{
    uuid_v5_hyphenated(buffer)
}

/// Whether `provided_uuid` is the identifier of `buffer`. A malformed
/// identifier is refused before anything is hashed. The comparison is exact,
/// so an upper-case identifier never matches.
pub fn validate_file_uuid(buffer: &[u8], provided_uuid: &str) -> (r: Result<bool, ValidationError>)
    ensures
        !is_uuid_text(provided_uuid@) ==> r == Err::<bool, ValidationError>(
            ValidationError::InvalidUuidFormat,
        ),
        is_uuid_text(provided_uuid@) ==> r == Ok::<bool, ValidationError>(
            content_id_of(buffer@) == provided_uuid@,
        ),
{
    if !validate_uuid(provided_uuid) {
        return Err(ValidationError::InvalidUuidFormat);
    }
    let generated = generate_id(buffer);
    let provided = provided_uuid.to_owned();
    Ok(generated == provided)
}

/// Identifiers are a function of the content: two generations from equal
/// contents give the same text.
pub proof fn lemma_id_deterministic(a: Seq<u8>, b: Seq<u8>, id_a: Seq<char>, id_b: Seq<char>)
    requires
        a == b,
        id_a == content_id_of(a),
        id_b == content_id_of(b),
    ensures
        id_a == id_b,
{
}

/// Every generated identifier passes the format validator.
pub proof fn lemma_canonical_is_well_formed(s: Seq<char>)
    requires
        is_canonical_id(s),
    ensures
        is_uuid_text(s),
{
    assert forall|i: int| 0 <= i < 36 && !is_hyphen_position(i) implies is_ascii_hex(s[i]) by {
        assert(is_lower_hex(s[i]));
    }
}

/// The hyphenated form admits no edit: removing any character (a hyphen, or
/// a digit, which shortens its group), inserting any character, or putting a
/// non-hexadecimal character in place of a digit gives a string that fails.
pub proof fn lemma_uuid_edits_fail(s: Seq<char>, i: int, c: char)
    requires
        is_uuid_text(s),
        0 <= i < 36,
    ensures
        !is_uuid_text(s.remove(i)),
        !is_uuid_text(s.insert(i, c)),
        !is_hyphen_position(i) && !is_ascii_hex(c) ==> !is_uuid_text(s.update(i, c)),
{
    if !is_hyphen_position(i) && !is_ascii_hex(c) {
        assert(s.update(i, c)[i] == c);
    }
}

} // verus!
