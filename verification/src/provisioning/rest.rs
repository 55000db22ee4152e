//! The REST paths of the provisioning endpoints, every name written as one
//! percent-encoded path segment (as `percent_encoding::utf8_percent_encode`
//! encodes with the path-segment set below).

use vstd::prelude::*;
use crate::text::{append_str, own, push_char};

verus! {

/// The bytes encoded inside a path segment besides the non-ASCII ones: the
/// controls (`0x00`-`0x1F`, `0x7F`), space and `"<>\^`{|}`, and `/?#%&=+;@[]`
/// so a name can neither reach a sub-path nor start a query or an escape.
pub open spec fn in_segment_set(b: u8) -> bool {
    b < 0x20 || b == 0x7F || b == 0x20 || b == 0x22 || b == 0x3C || b == 0x3E || b == 0x5C || b == 0x5E
        || b == 0x60 || b == 0x7B || b == 0x7C || b == 0x7D || b == 0x2F || b == 0x3F || b == 0x23
        || b == 0x25 || b == 0x26 || b == 0x3D || b == 0x2B || b == 0x3B || b == 0x40 || b == 0x5B
        || b == 0x5D
}

/// An uppercase hexadecimal digit.
pub open spec fn hex_upper(d: u8) -> char {
    if d < 10 {
        ((d + 48) as u8) as char
    } else {
        ((d + 55) as u8) as char
    }
}

/// One byte of a segment: `%` and two uppercase hex digits when it is
/// non-ASCII or in the set, else the byte as a character.
pub open spec fn encode_byte(b: u8) -> Seq<char> {
    if b >= 0x80 || in_segment_set(b) {
        seq!['%', hex_upper(b / 16), hex_upper(b % 16)]
    } else {
        seq![b as char]
    }
}

/// The encoding of bytes `bs`, byte by byte.
pub open spec fn encode_bytes(bs: Seq<u8>) -> Seq<char>
    decreases bs.len(),
{
    if bs.len() == 0 {
        Seq::empty()
    } else {
        encode_bytes(bs.drop_last()) + encode_byte(bs.last())
    }
}

/// The path segment of name `s`: its UTF-8 bytes encoded.
pub open spec fn segment(s: Seq<char>) -> Seq<char> {
    encode_bytes(vstd::utf8::encode_utf8(s))
}

fn hex_char(d: u8) -> (c: char)
    requires
        d < 16,
    ensures
        c == hex_upper(d),
{
    if d < 10 {
        (d + 48) as char
    } else {
        (d + 55) as char
    }
}

fn segment_set(b: u8) -> (r: bool)
    ensures
        r == in_segment_set(b),
{
    b < 0x20 || b == 0x7F || b == 0x20 || b == 0x22 || b == 0x3C || b == 0x3E || b == 0x5C || b == 0x5E
        || b == 0x60 || b == 0x7B || b == 0x7C || b == 0x7D || b == 0x2F || b == 0x3F || b == 0x23
        || b == 0x25 || b == 0x26 || b == 0x3D || b == 0x2B || b == 0x3B || b == 0x40 || b == 0x5B
        || b == 0x5D
}

/// Appends the path segment of `s` to `out`.
pub fn push_segment(out: &mut String, s: &str)
    ensures
        final(out)@ == old(out)@ + segment(s@),
{
    let bytes = s.as_bytes();
    let ghost bs = bytes@;
    let ghost start = out@;
    let mut i: usize = 0;
    assert(bs.take(0) =~= Seq::<u8>::empty());
    assert(start + encode_bytes(bs.take(0)) =~= start);
    while i < bytes.len()
        invariant
            i <= bs.len(),
            bs == bytes@,
            bs == vstd::utf8::encode_utf8(s@),
            out@ == start + encode_bytes(bs.take(i as int)),
        decreases bs.len() - i,
    {
        let b = bytes[i];
        let ghost before = out@;
        if b >= 0x80 || segment_set(b) {
            push_char(out, '%');
            push_char(out, hex_char(b / 16));
            push_char(out, hex_char(b % 16));
        } else {
            push_char(out, b as char);
        }
        assert(bs.take(i + 1).drop_last() =~= bs.take(i as int));
        assert(bs.take(i + 1).last() == b);
        assert(out@ =~= before + encode_byte(b));
        assert(out@ =~= start + encode_bytes(bs.take(i + 1)));
        i = i + 1;
    }
    assert(bs.take(bs.len() as int) =~= bs);
}

/// `rest/requisitionNames`
pub open spec fn names_path() -> Seq<char> {
    "rest/requisitionNames"@
}

/// `rest/requisitions/<fs>`
pub open spec fn requisition_path_text(fs: Seq<char>) -> Seq<char> {
    "rest/requisitions/"@ + segment(fs)
}

/// `rest/requisitions/<fs>/import?rescanExisting=<true|false>`
pub open spec fn import_path_text(fs: Seq<char>, rescan_existing: bool) -> Seq<char> {
    "rest/requisitions/"@ + segment(fs) + "/import?rescanExisting="@ + if rescan_existing {
        "true"@
    } else {
        "false"@
    }
}

/// `rest/requisitions/<fs>/nodes`
pub open spec fn nodes_path_text(fs: Seq<char>) -> Seq<char> {
    "rest/requisitions/"@ + segment(fs) + "/nodes"@
}

/// `rest/requisitions/<fs>/nodes/<foreign id>`
pub open spec fn node_path_text(fs: Seq<char>, foreign_id: Seq<char>) -> Seq<char> {
    "rest/requisitions/"@ + segment(fs) + "/nodes/"@ + segment(foreign_id)
}

/// `rest/foreignSources/<fs>`
pub open spec fn foreign_source_path_text(fs: Seq<char>) -> Seq<char> {
    "rest/foreignSources/"@ + segment(fs)
}

/// `rest/foreignSources/default`
pub open spec fn default_foreign_source_path() -> Seq<char> {
    "rest/foreignSources/default"@
}

/// The path listing the requisition names.
pub fn requisition_names() -> (p: String)
    ensures
        p@ == names_path(),
{
    own("rest/requisitionNames")
}

/// The path of requisition `fs`.
pub fn requisition(fs: &str) -> (p: String)
    ensures
        p@ == requisition_path_text(fs@),
{
    let mut p = own("rest/requisitions/");
    push_segment(&mut p, fs);
    p
}

/// The path that triggers the import of requisition `fs`.
pub fn import(fs: &str, rescan_existing: bool) -> (p: String)
    ensures
        p@ == import_path_text(fs@, rescan_existing),
{
    let mut p = own("rest/requisitions/");
    push_segment(&mut p, fs);
    append_str(&mut p, "/import?rescanExisting=");
    append_str(&mut p, if rescan_existing { "true" } else { "false" });
    p
}

/// The path of the nodes of requisition `fs`.
pub fn nodes(fs: &str) -> (p: String)
    ensures
        p@ == nodes_path_text(fs@),
{
    let mut p = own("rest/requisitions/");
    push_segment(&mut p, fs);
    append_str(&mut p, "/nodes");
    p
}

/// The path of node `foreign_id` of requisition `fs`.
pub fn node(fs: &str, foreign_id: &str) -> (p: String)
    ensures
        p@ == node_path_text(fs@, foreign_id@),
{
    let mut p = own("rest/requisitions/");
    push_segment(&mut p, fs);
    append_str(&mut p, "/nodes/");
    push_segment(&mut p, foreign_id);
    p
}

/// The path of the foreign source of requisition `fs`.
pub fn foreign_source(fs: &str) -> (p: String)
    ensures
        p@ == foreign_source_path_text(fs@),
{
    let mut p = own("rest/foreignSources/");
    push_segment(&mut p, fs);
    p
}

/// The path of the server's default foreign source.
pub fn default_foreign_source() -> (p: String)
    ensures
        p@ == default_foreign_source_path(),
{
    own("rest/foreignSources/default")
}

/// A segment holds no `/`, `?` or `#`: a name never reaches a sub-path or
/// starts a query or a fragment.
pub proof fn lemma_segment_has_no_separator(s: Seq<char>)
    ensures
        !segment(s).contains('/'),
        !segment(s).contains('?'),
        !segment(s).contains('#'),
{
    lemma_encode_bytes_no_separator(vstd::utf8::encode_utf8(s));
}

proof fn lemma_hex_upper_plain(d: u8)
    requires
        d < 16,
    ensures
        hex_upper(d) != '/' && hex_upper(d) != '?' && hex_upper(d) != '#',
{
}

proof fn lemma_encode_bytes_no_separator(bs: Seq<u8>)
    ensures
        !encode_bytes(bs).contains('/'),
        !encode_bytes(bs).contains('?'),
        !encode_bytes(bs).contains('#'),
    decreases bs.len(),
{
    if bs.len() > 0 {
        lemma_encode_bytes_no_separator(bs.drop_last());
        let a = encode_bytes(bs.drop_last());
        let b = bs.last();
        let e = encode_byte(b);
        lemma_hex_upper_plain(b / 16);
        lemma_hex_upper_plain(b % 16);
        assert forall|c: char| c == '/' || c == '?' || c == '#' implies !(a + e).contains(c) by {
            if (a + e).contains(c) {
                let k = choose|k: int| 0 <= k < (a + e).len() && (a + e)[k] == c;
                if k < a.len() {
                    assert(a[k] == c);
                } else {
                    assert(e[k - a.len()] == c);
                }
            }
        }
    }
}

} // verus!
