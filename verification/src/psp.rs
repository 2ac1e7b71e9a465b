//! PSP disc identity: `PARAM.SFO` and `UMD_DATA.BIN` must name the same disc.
use vstd::prelude::*;

use crate::error::{message_with, text_with, PipelineError, Result};
use crate::sfo::{parse_strings, spec_parse_sfo};
use crate::text::{
    append_chars, chars_eq, chars_of, concat, is_blank, is_digit, lines, spec_blank, spec_lines,
    string_of, views,
};

verus! {

/// The embedded identity of a PSP image.
#[derive(Clone, Debug, PartialEq, Eq)]
pub struct PspIdentity {
    pub disc_id: String,
    pub title: String,
}

/// A PSP disc ID: four ASCII capital letters and five digits.
pub open spec fn valid_disc_id(s: Seq<char>) -> bool {
    &&& s.len() == 9
    &&& forall|i: int| 0 <= i < 4 ==> 'A' <= #[trigger] s[i] && s[i] <= 'Z'
    &&& forall|i: int| 4 <= i < 9 ==> is_digit(#[trigger] s[i])
}

/// Whether a string is a PSP disc ID.
pub fn is_valid_disc_id(s: &[char]) -> (r: bool)
    ensures
        r == valid_disc_id(s@),
{
    if s.len() != 9 {
        return false;
    }
    let mut i: usize = 0;
    while i < 9
        invariant
            s@.len() == 9,
            i <= 9,
            forall|j: int| 0 <= j < i && j < 4 ==> 'A' <= #[trigger] s@[j] && s@[j] <= 'Z',
            forall|j: int| 4 <= j < i ==> is_digit(#[trigger] s@[j]),
        decreases 9 - i,
    {
        let c = s[i];
        if i < 4 {
            if !('A' <= c && c <= 'Z') {
                return false;
            }
        } else if !('0' <= c && c <= '9') {
            return false;
        }
        i += 1;
    }
    true
}

/// A byte that ends the disc ID in `UMD_DATA.BIN`.
pub open spec fn umd_terminator(b: u8) -> bool {
    b == 0x7c || b == 0 || b == 0x0d || b == 0x0a
}

/// The length of the disc-ID field of `UMD_DATA.BIN`: up to the first `|`, NUL, CR or LF.
pub open spec fn umd_field_len(b: Seq<u8>) -> int
    decreases b.len(),
{
    if b.len() == 0 {
        0
    } else if umd_terminator(b[0]) {
        0
    } else {
        1 + umd_field_len(b.drop_first())
    }
}

/// The character with a byte's code point (`char::from(u8)`).
pub open spec fn byte_char(b: u8) -> char {
    (b as u32) as char
}

/// The disc ID text of a field: its bytes as characters, hyphens dropped.
pub open spec fn umd_chars(b: Seq<u8>) -> Seq<char>
    decreases b.len(),
{
    if b.len() == 0 {
        seq![]
    } else {
        let rest = umd_chars(b.drop_last());
        if b.last() == 0x2d {
            rest
        } else {
            rest.push(byte_char(b.last()))
        }
    }
}

/// The disc ID that `UMD_DATA.BIN` holds.
pub open spec fn spec_umd_id(b: Seq<u8>) -> Seq<char> {
    umd_chars(b.take(umd_field_len(b)))
}

proof fn lemma_umd_len(b: Seq<u8>, i: int)
    requires
        0 <= i <= b.len(),
        forall|j: int| 0 <= j < i ==> !umd_terminator(#[trigger] b[j]),
        i < b.len() ==> umd_terminator(b[i]),
    ensures
        umd_field_len(b) == i,
    decreases i,
{
    if i > 0 {
        let d = b.drop_first();
        assert forall|j: int| 0 <= j < i - 1 implies !umd_terminator(#[trigger] d[j]) by {
            assert(d[j] == b[j + 1]);
        }
        if i < b.len() {
            assert(d[i - 1] == b[i]);
        }
        lemma_umd_len(d, i - 1);
    }
}

fn byte_to_char(b: u8) -> (c: char)
    ensures
        c == byte_char(b),
{
    b as char
}

/// Reads the disc ID of `UMD_DATA.BIN`: the bytes before the first `|`, NUL, CR or LF,
/// without hyphens; it must be a PSP disc ID.
pub fn normalize_umd_id(bytes: &[u8]) -> (r: Result<String>)
    ensures
        r is Ok <==> valid_disc_id(spec_umd_id(bytes@)),
        r matches Ok(s) ==> s@ == spec_umd_id(bytes@),
        r matches Err(e) ==> e matches PipelineError::Message(m) && m@
            == "UMD_DATA.BIN has an invalid disc ID: "@ + spec_umd_id(bytes@),
{
    let mut end: usize = 0;
    while end < bytes.len() && !(bytes[end] == 0x7c || bytes[end] == 0 || bytes[end] == 0x0d
        || bytes[end] == 0x0a)
        invariant
            end <= bytes@.len(),
            forall|j: int| 0 <= j < end ==> !umd_terminator(#[trigger] bytes@[j]),
        decreases bytes@.len() - end,
    {
        end += 1;
    }
    proof {
        lemma_umd_len(bytes@, end as int);
    }
    let mut value: Vec<char> = Vec::new();
    for i in 0..end
        invariant
            end <= bytes@.len(),
            value@ == umd_chars(bytes@.take(i as int)),
    {
        assert(bytes@.take(i + 1 as int).drop_last() =~= bytes@.take(i as int));
        if bytes[i] != 0x2d {
            value.push(byte_to_char(bytes[i]));
        }
    }
    if is_valid_disc_id(&value) {
        Ok(string_of(&value))
    } else {
        Err(message_with("UMD_DATA.BIN has an invalid disc ID: ", &value))
    }
}

/// The members that a PSP image must list.
pub open spec fn required_member(k: int) -> Seq<char> {
    if k == 0 {
        "Path = UMD_DATA.BIN"@
    } else if k == 1 {
        "Path = PSP_GAME/PARAM.SFO"@
    } else {
        "Path = PSP_GAME/SYSDIR/EBOOT.BIN"@
    }
}

/// The name of a required member.
pub open spec fn required_name(k: int) -> Seq<char> {
    if k == 0 {
        "UMD_DATA.BIN"@
    } else if k == 1 {
        "PSP_GAME/PARAM.SFO"@
    } else {
        "PSP_GAME/SYSDIR/EBOOT.BIN"@
    }
}

/// A listing holds a line.
pub open spec fn lists(listing: Seq<char>, line: Seq<char>) -> bool {
    exists|i: int| 0 <= i < spec_lines(listing).len() && #[trigger] spec_lines(listing)[i] == line
}

/// The first required member that a 7-Zip listing lacks.
pub open spec fn missing_member(listing: Seq<char>) -> Option<int> {
    if !lists(listing, required_member(0)) {
        Some(0)
    } else if !lists(listing, required_member(1)) {
        Some(1)
    } else if !lists(listing, required_member(2)) {
        Some(2)
    } else {
        None
    }
}

fn has_line(all: &Vec<Vec<char>>, line: &[char]) -> (r: bool)
    ensures
        r == exists|i: int| 0 <= i < all@.len() && #[trigger] views(all@)[i] == line@,
{
    let mut i: usize = 0;
    while i < all.len()
        invariant
            i <= all@.len(),
            forall|j: int| 0 <= j < i ==> #[trigger] views(all@)[j] != line@,
        decreases all@.len() - i,
    {
        if chars_eq(&all[i], line) {
            assert(views(all@)[i as int] == line@);
            return true;
        }
        i += 1;
    }
    false
}

/// Checks that a 7-Zip technical listing (`7z l -slt`) names the three members that every
/// PSP image holds.
pub fn check_listing(listing: &str, path: &str) -> (r: Result<()>)
    ensures
        r is Ok <==> missing_member(listing@) is None,
        r matches Err(e) ==> e matches PipelineError::Message(m) && m@ == "PSP ISO is missing "@
            + required_name(missing_member(listing@)->0) + ": "@ + path@,
{
    let all = lines(&chars_of(listing));
    if !has_line(&all, &chars_of("Path = UMD_DATA.BIN")) {
        return Err(missing_error("UMD_DATA.BIN", path));
    }
    if !has_line(&all, &chars_of("Path = PSP_GAME/PARAM.SFO")) {
        return Err(missing_error("PSP_GAME/PARAM.SFO", path));
    }
    if !has_line(&all, &chars_of("Path = PSP_GAME/SYSDIR/EBOOT.BIN")) {
        return Err(missing_error("PSP_GAME/SYSDIR/EBOOT.BIN", path));
    }
    Ok(())
}

fn missing_error(name: &str, path: &str) -> (r: PipelineError)
    ensures
        r matches PipelineError::Message(m) && m@ == "PSP ISO is missing "@ + name@ + ": "@
            + path@,
{
    let head = concat(&chars_of("PSP ISO is missing "), &chars_of(name));
    let mid = concat(&head, &chars_of(": "));
    let all = concat(&mid, &chars_of(path));
    PipelineError::Message(string_of(&all))
}

/// The identity that `PARAM.SFO` gives: a valid `DISC_ID`, and the `TITLE` unless it is
/// blank, else the disc ID; or the message of the error.
pub open spec fn spec_sfo_identity(sfo: Seq<u8>, path: Seq<char>) -> core::result::Result<
    (Seq<char>, Seq<char>),
    Seq<char>,
> {
    match spec_parse_sfo(sfo) {
        Err(m) => Err(m),
        Ok(values) => if !values.contains_key("DISC_ID"@) || !valid_disc_id(values["DISC_ID"@]) {
            Err("PARAM.SFO has no valid DISC_ID: "@ + path)
        } else {
            let disc_id = values["DISC_ID"@];
            let title = if values.contains_key("TITLE"@) && !spec_blank(values["TITLE"@]) {
                values["TITLE"@]
            } else {
                disc_id
            };
            Ok((disc_id, title))
        },
    }
}

/// Reads the identity of a PSP image from its `PARAM.SFO`.
pub fn identity_from_sfo(sfo: &[u8], path: &str) -> (r: Result<PspIdentity>)
    ensures
        r matches Ok(id) ==> spec_sfo_identity(sfo@, path@) == Ok::<
            (Seq<char>, Seq<char>),
            Seq<char>,
        >((id.disc_id@, id.title@)),
        r matches Err(e) ==> e matches PipelineError::Message(m) && spec_sfo_identity(sfo@, path@)
            == Err::<(Seq<char>, Seq<char>), Seq<char>>(m@),
{
    let values = parse_strings(sfo)?;
    let disc_id = match values.get("DISC_ID") {
        Some(v) => {
            if !is_valid_disc_id(&chars_of(v.as_str())) {
                return Err(message_with("PARAM.SFO has no valid DISC_ID: ", &chars_of(path)));
            }
            v.clone()
        },
        None => {
            return Err(message_with("PARAM.SFO has no valid DISC_ID: ", &chars_of(path)));
        },
    };
    let title = match values.get("TITLE") {
        Some(t) => if is_blank(&chars_of(t.as_str())) {
            disc_id.clone()
        } else {
            t.clone()
        },
        None => disc_id.clone(),
    };
    Ok(PspIdentity { disc_id, title })
}

/// Checks that `UMD_DATA.BIN` names the disc that `PARAM.SFO` names.
pub fn confirm_umd(identity: PspIdentity, umd: &[u8], path: &str) -> (r: Result<PspIdentity>)
    ensures
        r is Ok <==> valid_disc_id(spec_umd_id(umd@)) && spec_umd_id(umd@) == identity.disc_id@,
        r matches Ok(id) ==> id == identity,
        r matches Err(e) ==> e matches PipelineError::Message(m) && (if !valid_disc_id(
            spec_umd_id(umd@),
        ) {
            m@ == "UMD_DATA.BIN has an invalid disc ID: "@ + spec_umd_id(umd@)
        } else {
            m@ == "PSP identity mismatch in "@ + path@ + ": PARAM.SFO="@ + identity.disc_id@
                + ", UMD_DATA.BIN="@ + spec_umd_id(umd@)
        }),
{
    let umd_id = normalize_umd_id(umd)?;
    if umd_id != identity.disc_id {
        let mut m = chars_of("PSP identity mismatch in ");
        append_chars(&mut m, &chars_of(path));
        append_chars(&mut m, &chars_of(": PARAM.SFO="));
        append_chars(&mut m, &chars_of(identity.disc_id.as_str()));
        append_chars(&mut m, &chars_of(", UMD_DATA.BIN="));
        append_chars(&mut m, &chars_of(umd_id.as_str()));
        return Err(PipelineError::Message(string_of(&m)));
    }
    Ok(identity)
}

} // verus!
