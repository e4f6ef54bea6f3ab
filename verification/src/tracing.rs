use vstd::prelude::*;
use vstd::string::StrSliceExecFns;
use vstd::string::StringExecFns;
use vstd::utf8::encode_utf8;
use colored::Colorize;

verus! {

/// Trait for types that can be visualized in terminal logs.
pub trait Visualize {
    fn visualize(&self, max_chunk_size: usize) -> String;
}

/// The UTF-8 byte length of a sequence of characters.
pub open spec fn spec_byte_len(s: Seq<char>) -> nat {
    encode_utf8(s).len()
}

/// Holds when `s` contains the log-trimming marker text, possibly wrapped
/// in terminal styling.
pub open spec fn is_trim_marker(s: Seq<char>) -> bool {
    exists|a: Seq<char>, b: Seq<char>| s == #[trigger] (a + "...[log trimmed]..."@ + b)
}

/// Relies on colored's Colorize (yellow, dimmed): rendering a styled string
/// yields the text itself, wrapped in terminal escape codes when coloring
/// is enabled and bare otherwise.
#[verifier::external_body]
fn colored_trim_marker() -> (r: String)
    ensures
        is_trim_marker(r@),
{
    format!("{}", "...[log trimmed]...".yellow().dimmed())
}

/// The styled marker that replaces the middle of a trimmed log string.
pub fn log_str() -> (r: String)
    ensures
        is_trim_marker(r@),
{
    colored_trim_marker()
}

/// What truncation produces: when `s` is longer than `max` bytes (and
/// `max` is positive), all but the leading and trailing characters are
/// replaced by the marker; otherwise `s` is kept whole.  With `h` half of
/// `max` and `n` the character count, the lead keeps `min(h, n) - 1`
/// characters and the tail keeps `min(h, n)`.
pub open spec fn spec_truncated(s: Seq<char>, max: int, marker: Seq<char>) -> Seq<char> {
    if max > 0 && spec_byte_len(s) > max {
        let h = max / 2;
        if h == 0 {
            marker
        } else {
            let n = s.len() as int;
            let k = if h < n {
                h
            } else {
                n
            };
            s.take(k - 1) + marker + s.skip(n - k)
        }
    } else {
        s
    }
}

/// Truncates `s` to roughly `max_size` bytes, replacing the middle with
/// the given marker.
pub fn truncate_with_marker(s: &str, max_size: usize, marker: &str) -> (r: String)
    requires
        spec_byte_len(s@) <= usize::MAX,
    ensures
        r@ == spec_truncated(s@, max_size as int, marker@),
{
    if max_size > 0 && s.len() > max_size {
        proof {
            if s@.len() == 0 {
                assert(encode_utf8(s@) =~= Seq::<u8>::empty());
            }
        }
        let half_size = max_size / 2;
        if half_size == 0 {
            marker.to_owned()
        } else {
            let n = s.unicode_len();
            let k = if half_size < n {
                half_size
            } else {
                n
            };
            let prefix = s.substring_char(0, k - 1);
            let suffix = s.substring_char(n - k, n);
            let mut r = prefix.to_owned();
            r.append(marker);
            r.append(suffix);
            proof {
                assert(r@ =~= spec_truncated(s@, max_size as int, marker@));
            }
            r
        }
    } else {
        s.to_owned()
    }
}

/// Truncates `s` to roughly `max_size` bytes, replacing the middle with
/// the styled trimming marker.
pub fn truncate_string(s: &str, max_size: usize) -> (r: String)
    requires
        spec_byte_len(s@) <= usize::MAX,
    ensures
        !(max_size > 0 && spec_byte_len(s@) > max_size) ==> r@ == s@,
        (max_size > 0 && spec_byte_len(s@) > max_size) ==> exists|mk: Seq<char>|
            #[trigger] is_trim_marker(mk) && r@ == spec_truncated(s@, max_size as int, mk),
{
    if max_size > 0 && s.len() > max_size {
        let marker = log_str();
        let r = truncate_with_marker(s, max_size, marker.as_str());
        proof {
            assert(is_trim_marker(marker@) && r@ == spec_truncated(
                s@,
                max_size as int,
                marker@,
            ));
        }
        r
    } else {
        s.to_owned()
    }
}

} // verus!
