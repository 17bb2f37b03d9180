//! The build's own identity: its version and the commit it was built from, as shown by
//! `slack --version`.
use vstd::prelude::*;
use vstd::string::*;
use vstd::utf8::*;

verus! {

/// What stands for the commit of a binary built without git history.
pub const UNKNOWN: &'static str = "unknown";

/// The bytes a short commit keeps: the first seven when they end on a character boundary,
/// all of them otherwise.
pub open spec fn short_bytes(b: Seq<u8>) -> Seq<u8> {
    if is_char_boundary(b, 7) {
        b.take(7)
    } else {
        b
    }
}

/// The first seven characters of a commit hash; a shorter or odd one stays as it is.
pub fn short(commit: &str) -> (r: &str)
    ensures
        r.spec_bytes() == short_bytes(commit.spec_bytes()),
        r@ == decode_utf8(short_bytes(commit.spec_bytes())),
{
    proof {
        encode_utf8_decode_utf8(commit@);
    }
    if commit.is_char_boundary(7) {
        let (head, _) = commit.split_at(7);
        proof {
            encode_utf8_decode_utf8(head@);
            assert(commit.spec_bytes().subrange(0, 7) == commit.spec_bytes().take(7));
        }
        head
    } else {
        commit
    }
}

/// A commit of fewer than seven bytes is shown whole.
pub proof fn law_a_short_commit_stays_whole(commit: &str)
    requires
        commit.spec_bytes().len() < 7,
    ensures
        short_bytes(commit.spec_bytes()) == commit.spec_bytes(),
{
    encode_utf8_valid_utf8(commit@);
}

/// `0.1.0 (a1b2c3d)`: the version, then the short commit in brackets.
pub fn label(version: &str, commit: &str) -> (r: String)
    ensures
        r@ == version@ + " ("@ + decode_utf8(short_bytes(commit.spec_bytes())) + ")"@,
{
    let mut r = version.to_owned();
    r.append(" (");
    r.append(short(commit));
    r.append(")");
    r
}

} // verus!
