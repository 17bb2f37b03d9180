//! Where `:export` writes: a file named after the conversation and the time of the export.
use crate::palette::Format;
use crate::text::{ascii_lower, chars_of, drop_around, lower_ascii, skip_leading, skip_trailing, string_of};
use vstd::prelude::*;

verus! {

/// Whether `char::is_alphanumeric` holds for `c`: a Unicode letter or number.
pub uninterp spec fn alphanumeric(c: char) -> bool;

/// `char::is_alphanumeric`. Its result depends on the character alone; the Unicode tables it
/// follows are not restated here.
#[verifier::external_body]
fn is_alphanumeric(c: char) -> (r: bool)
    ensures
        r == alphanumeric(c),
{
    c.is_alphanumeric()
}

/// What a character of a conversation's name becomes in a file name: letters and numbers
/// stay (ASCII ones in lower case), anything else is a dash.
pub open spec fn stem_char(c: char) -> char {
    if alphanumeric(c) {
        ascii_lower(c)
    } else {
        '-'
    }
}

/// The part of the file name taken from the conversation's name, without dashes at its ends.
pub open spec fn export_stem(label: Seq<char>) -> Seq<char> {
    skip_trailing(skip_leading(label.map_values(|c: char| stem_char(c)), '-'), '-')
}

/// The extension of an export.
pub open spec fn extension(format: Format) -> Seq<char> {
    match format {
        Format::Json => "json"@,
        Format::Markdown => "md"@,
    }
}

/// The file an export of `label` made at `stamp` is written to: `slack-<name>-<stamp>.<ext>`.
pub open spec fn export_name(label: Seq<char>, format: Format, stamp: Seq<char>) -> Seq<char> {
    "slack-"@ + export_stem(label) + "-"@ + stamp + "."@ + extension(format)
}

/// The name of the file an export of conversation `label` in `format`, made at the time
/// `stamp` reads, is written to.
pub fn export_file_name(label: &str, format: Format, stamp: &str) -> (r: String)
    ensures
        r@ == export_name(label@, format, stamp@),
{
    let v = chars_of(label);
    let mut mapped: Vec<char> = Vec::new();
    let mut i: usize = 0;
    while i < v.len()
        invariant
            i <= v@.len(),
            v@ == label@,
            mapped@ == v@.take(i as int).map_values(|c: char| stem_char(c)),
        decreases v.len() - i,
    {
        let c = v[i];
        let out = if is_alphanumeric(c) {
            lower_ascii(c)
        } else {
            '-'
        };
        mapped.push(out);
        assert(v@.take(i + 1).map_values(|c: char| stem_char(c)) =~= v@.take(i as int).map_values(
            |c: char| stem_char(c),
        ).push(stem_char(v@[i as int])));
        i += 1;
    }
    assert(v@.take(v@.len() as int) == v@);
    let stem = drop_around(mapped.as_slice(), '-');
    let mut r = "slack-".to_owned();
    r.append(string_of(stem.as_slice()).as_str());
    r.append("-");
    r.append(stamp);
    r.append(".");
    r.append(match format {
        Format::Json => "json",
        Format::Markdown => "md",
    });
    r
}

} // verus!
