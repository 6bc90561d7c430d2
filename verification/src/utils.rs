use vstd::prelude::*;

verus! {

/// Picks `truth_val` when `cond` holds and `false_val` otherwise.
pub fn or<T: Sized>(cond: bool, truth_val: T, false_val: T) -> (r: T)
    ensures
        r == if cond {
            truth_val
        } else {
            false_val
        },
{
    if cond {
        truth_val
    } else {
        false_val
    }
}

/// A lower-case hexadecimal digit.
pub open spec fn spec_is_lower_hex(c: char) -> bool {
    let u = c as u32;
    (48 <= u && u <= 57) || (97 <= u && u <= 102)
}

/// A fresh v4 UUID in hyphenated lower-case form. Relies on
/// uuid::Uuid::new_v4 and its hyphenated lower-case encoder; the value is
/// random, so only its shape is promised: 36 characters, hyphens between
/// the five groups, lower-case hex everywhere else.
#[verifier::external_body]
pub fn gen_uuid() -> (r: String)
    ensures
        r@.len() == 36,
        r@[8] == '-' && r@[13] == '-' && r@[18] == '-' && r@[23] == '-',
        forall|i: int|
            0 <= i < 36 && i != 8 && i != 13 && i != 18 && i != 23 ==> spec_is_lower_hex(
                #[trigger] r@[i],
            ),
{
    uuid::Uuid::new_v4().hyphenated().encode_lower(&mut uuid::Uuid::encode_buffer()).to_owned()
}

} // verus!
