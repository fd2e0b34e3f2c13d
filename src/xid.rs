use vstd::prelude::*;

use unicode_xid::UnicodeXID;

verus! {

/// Whether a character has the Unicode property XID_Start.
pub uninterp spec fn xid_start(c: char) -> bool;

/// Whether a character has the Unicode property XID_Continue.
pub uninterp spec fn xid_continue(c: char) -> bool;

pub open spec fn is_ascii_letter(c: char) -> bool {
    ('a' <= c && c <= 'z') || ('A' <= c && c <= 'Z')
}

/// The class of characters that may begin an identifier.
pub open spec fn ident_start(c: char) -> bool {
    if (c as u32) < 0x80 {
        is_ascii_letter(c)
    } else {
        xid_start(c)
    }
}

/// The class of characters that may continue an identifier.
pub open spec fn ident_continue(c: char) -> bool {
    if (c as u32) < 0x80 {
        is_ascii_letter(c) || ('0' <= c && c <= '9') || c == '_'
    } else {
        xid_continue(c)
    }
}

/// Relies on `UnicodeXID::is_xid_start` for `char` (unicode-xid): an ASCII
/// character qualifies exactly when it is a letter; any other is looked up in
/// the XID_Start table.
#[verifier::external_body]
pub(crate) fn is_ident_start(c: char) -> (r: bool)
    ensures
        (c as u32) < 0x80 ==> r == is_ascii_letter(c),
        (c as u32) >= 0x80 ==> r == xid_start(c),
{
    c.is_xid_start()
}

/// Relies on `UnicodeXID::is_xid_continue` for `char` (unicode-xid): an ASCII
/// character qualifies exactly when it is a letter, a decimal digit or `_`;
/// any other is looked up in the XID_Continue table.
#[verifier::external_body]
pub(crate) fn is_ident_continue(c: char) -> (r: bool)
    ensures
        (c as u32) < 0x80 ==> r == (is_ascii_letter(c) || ('0' <= c && c <= '9') || c == '_'),
        (c as u32) >= 0x80 ==> r == xid_continue(c),
{
    c.is_xid_continue()
}

} // verus!
