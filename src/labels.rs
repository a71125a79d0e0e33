use vstd::prelude::*;

verus! {

/// At most the first `n` characters of `s`.
pub open spec fn first_chars(s: Seq<char>, n: nat) -> Seq<char> {
    if s.len() <= n {
        s
    } else {
        s.take(n as int)
    }
}

fn take_chars(s: &str, n: usize) -> (r: String)
    ensures
        r@ == first_chars(s@, n as nat),
{
    let len = s.unicode_len();
    if len <= n {
        String::from_str(s)
    } else {
        String::from_str(s.substring_char(0, n))
    }
}

/// An identifier shortened to its first eight characters.
pub fn short_id(id: &str) -> (r: String)
    ensures
        r@ == first_chars(id@, 8),
{
    take_chars(id, 8)
}

/// An optional identifier shortened to eight characters; `-` when absent.
pub fn short_opt_id(id: Option<&str>) -> (r: String)
    ensures
        r@ == first_chars(
            match id {
                Some(s) => s@,
                None => "-"@,
            },
            8,
        ),
{
    match id {
        Some(s) => take_chars(s, 8),
        None => take_chars("-", 8),
    }
}

/// `s` cut to at most `max` characters: a longer text keeps its first
/// `max - 2` characters followed by `..`.
pub open spec fn truncated(s: Seq<char>, max: nat) -> Seq<char> {
    if s.len() <= max {
        s
    } else {
        s.take(max - 2) + ".."@
    }
}

/// Cut a text for a table cell of `max` characters.
pub fn truncate(s: &str, max: usize) -> (r: String)
    requires
        max >= 2,
    ensures
        r@ == truncated(s@, max as nat),
{
    let n = s.unicode_len();
    if n <= max {
        String::from_str(s)
    } else {
        let mut r = String::from_str(s.substring_char(0, max - 2));
        r.append("..");
        r
    }
}

/// An ISO-8601 timestamp as `YYYY-MM-DD HH:MM`: a text of sixteen characters
/// or more keeps its first ten, a space, then its characters 11 to 15; a
/// shorter text is kept; no timestamp shows as `-`.
pub open spec fn time_label(ts: Option<Seq<char>>) -> Seq<char> {
    match ts {
        Some(s) => if s.len() >= 16 {
            s.take(10) + " "@ + s.subrange(11, 16)
        } else {
            s
        },
        None => "-"@,
    }
}

/// Show a timestamp to the minute.
pub fn format_time(ts: Option<&str>) -> (r: String)
    ensures
        r@ == time_label(
            match ts {
                Some(s) => Some(s@),
                None => None,
            },
        ),
{
    match ts {
        Some(s) => {
            if s.unicode_len() >= 16 {
                let mut r = String::from_str(s.substring_char(0, 10));
                r.append(" ");
                r.append(s.substring_char(11, 16));
                r
            } else {
                String::from_str(s)
            }
        },
        None => String::from_str("-"),
    }
}

} // verus!
