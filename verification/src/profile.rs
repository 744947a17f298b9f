//! The local account shown in the window's corner: its first name, and the
//! photo the directory service keeps for it, read from the tools' output.
use crate::dashboard::{first_name, first_word};
use vstd::prelude::*;

verus! {

/// The name shown for the account: the first word of its full name, or
/// "Profile" when there is none.
pub open spec fn spec_profile_name(full_name: Option<Seq<char>>) -> Seq<char> {
    match full_name {
        Some(n) => if first_word(n).len() > 0 {
            first_word(n)
        } else {
            "Profile"@
        },
        None => "Profile"@,
    }
}

/// The name shown for the account, from its full name if one was read.
pub fn profile_name(full_name: Option<&str>) -> (r: String)
    ensures
        r@ == spec_profile_name(
            match full_name {
                Some(n) => Some(n@),
                None => None,
            },
        ),
{
    match full_name {
        Some(n) => {
            let w = first_name(n);
            if w.as_str().unicode_len() > 0 {
                w
            } else {
                String::from_str("Profile")
            }
        },
        None => String::from_str("Profile"),
    }
}

/// An ASCII hexadecimal digit, as a byte.
pub open spec fn hex_byte(b: u8) -> bool {
    (48 <= b <= 57) || (65 <= b <= 70) || (97 <= b <= 102)
}

/// A hexadecimal digit's value.
pub open spec fn hex_byte_value(b: u8) -> int {
    if 48 <= b <= 57 {
        b - 48
    } else if 65 <= b <= 70 {
        b - 55
    } else {
        b - 87
    }
}

/// The position of the first `:`.
pub open spec fn first_colon(s: Seq<u8>) -> Option<int>
    decreases s.len(),
{
    if s.len() == 0 {
        None
    } else {
        match first_colon(s.drop_last()) {
            Some(k) => Some(k),
            None => if s.last() == 58 {
                Some(s.len() - 1)
            } else {
                None
            },
        }
    }
}

/// The hexadecimal digits of `s`, in order.
pub open spec fn hex_digits(s: Seq<u8>) -> Seq<u8> {
    s.filter(|b: u8| hex_byte(b))
}

/// Bytes from pairs of hexadecimal digits; an unpaired last digit is left out.
pub open spec fn paired(h: Seq<u8>) -> Seq<int> {
    Seq::new(h.len() / 2, |i: int| hex_byte_value(h[2 * i]) * 16 + hex_byte_value(h[2 * i + 1]))
}

/// The photo in the directory service's output: the hexadecimal digits
/// after the first colon, read in pairs, when they make a JPEG (which
/// starts with `FF D8`).
pub open spec fn spec_photo(output: Seq<u8>) -> Option<Seq<int>> {
    match first_colon(output) {
        None => None,
        Some(k) => {
            let bytes = paired(hex_digits(output.skip(k + 1)));
            if bytes.len() >= 2 && bytes[0] == 0xff && bytes[1] == 0xd8 {
                Some(bytes)
            } else {
                None
            }
        },
    }
}

fn is_hex_byte(b: u8) -> (r: bool)
    ensures
        r == hex_byte(b),
{
    (48 <= b && b <= 57) || (65 <= b && b <= 70) || (97 <= b && b <= 102)
}

fn hex_value(b: u8) -> (r: u8)
    requires
        hex_byte(b),
    ensures
        r as int == hex_byte_value(b),
        r < 16,
{
    if 48 <= b && b <= 57 {
        b - 48
    } else if 65 <= b && b <= 70 {
        b - 55
    } else {
        b - 87
    }
}

/// The photo's bytes in the directory service's output, if it holds a JPEG.
pub fn decode_photo(output: &Vec<u8>) -> (r: Option<Vec<u8>>)
    ensures
        match r {
            Some(bytes) => spec_photo(output@) == Some(bytes@.map_values(|b: u8| b as int)),
            None => spec_photo(output@) is None,
        },
{
    let mut k: usize = 0;
    while k < output.len() && output[k] != 58
        invariant
            k <= output.len(),
            forall|j: int| 0 <= j < k ==> output@[j] != 58,
        decreases output.len() - k,
    {
        k += 1;
    }
    proof {
        lemma_first_colon(output@, k as int);
    }
    if k == output.len() {
        return None;
    }
    let ghost rest = output@.skip(k + 1);
    let mut hex: Vec<u8> = Vec::new();
    let mut i: usize = k + 1;
    while i < output.len()
        invariant
            k + 1 <= i <= output.len(),
            rest == output@.skip(k + 1),
            hex@ == hex_digits(rest.take(i - k - 1)),
            forall|j: int| 0 <= j < hex@.len() ==> hex_byte(#[trigger] hex@[j]),
        decreases output.len() - i,
    {
        proof {
            assert(rest.take(i - k) =~= rest.take(i - k - 1).push(output@[i as int]));
            assert(rest.take(i - k).drop_last() =~= rest.take(i - k - 1));
            reveal(Seq::filter);
        }
        if is_hex_byte(output[i]) {
            hex.push(output[i]);
        }
        i += 1;
    }
    proof {
        assert(rest.take(i - k - 1) =~= rest);
    }
    let mut bytes: Vec<u8> = Vec::new();
    let mut p: usize = 0;
    while p + 1 < hex.len()
        invariant
            p % 2 == 0,
            p <= hex.len(),
            bytes.len() == p / 2,
            forall|j: int| 0 <= j < hex@.len() ==> hex_byte(#[trigger] hex@[j]),
            forall|j: int|
                0 <= j < bytes.len() ==> #[trigger] bytes@[j] as int == paired(hex@)[j],
        decreases hex.len() - p,
    {
        let hi = hex_value(hex[p]);
        let lo = hex_value(hex[p + 1]);
        bytes.push(hi * 16 + lo);
        proof {
            assert(paired(hex@)[(p / 2) as int] == hex_byte_value(hex@[p as int]) * 16 + hex_byte_value(
                hex@[p + 1],
            ));
        }
        p += 2;
    }
    let ghost decoded = bytes@.map_values(|b: u8| b as int);
    proof {
        assert(bytes.len() == hex.len() / 2);
        assert(decoded =~= paired(hex@));
    }
    if bytes.len() >= 2 && bytes[0] == 0xff && bytes[1] == 0xd8 {
        Some(bytes)
    } else {
        None
    }
}

proof fn lemma_first_colon(s: Seq<u8>, k: int)
    requires
        0 <= k <= s.len(),
        forall|j: int| 0 <= j < k ==> s[j] != 58,
        k < s.len() ==> s[k] == 58,
    ensures
        first_colon(s) == (if k < s.len() {
            Some(k)
        } else {
            None
        }),
    decreases s.len(),
{
    if s.len() > 0 {
        if k < s.len() - 1 {
            lemma_first_colon(s.drop_last(), k);
        } else if k == s.len() - 1 {
            lemma_first_colon(s.drop_last(), k);
        } else {
            lemma_first_colon(s.drop_last(), k - 1);
        }
    }
}

/// The local account as the window shows it: a first name, and the JPEG
/// bytes of its photo when the directory keeps one.
pub struct Profile {
    pub name: String,
    pub photo: Option<Vec<u8>>,
}

impl Profile {
    /// The account from what the tools printed: the full name `id -F`
    /// gave, and the record `dscl` gave for the photo, when each ran.
    pub fn from_output(full_name: Option<&str>, photo_record: Option<&Vec<u8>>) -> (r: Profile)
        ensures
            r.name@ == spec_profile_name(
                match full_name {
                    Some(n) => Some(n@),
                    None => None,
                },
            ),
            match (photo_record, r.photo) {
                (Some(o), Some(bytes)) => spec_photo(o@) == Some(bytes@.map_values(|b: u8| b as int)),
                (Some(o), None) => spec_photo(o@) is None,
                (None, p) => p is None,
            },
    {
        let photo = match photo_record {
            Some(o) => decode_photo(o),
            None => None,
        };
        Profile { name: profile_name(full_name), photo }
    }
}

} // verus!
