//! Hyprland data and the parser for its event-socket lines.

use vstd::prelude::*;

verus! {

/// A workspace change reported by Hyprland.
#[derive(Debug, Clone)]
pub struct WorkspaceEvent {
    pub workspace_id: i32,
    pub workspace_name: String,
    pub monitor: String,
}

/// A workspace as Hyprland describes it.
#[derive(Debug, Clone)]
pub struct HyprlandWorkspace {
    pub id: i32,
    pub name: String,
}

/// Client of Hyprland's request socket.
pub struct HyprlandClient;

/// Index of the first `c` in `s`, or -1.
pub open spec fn first_index_of(s: Seq<char>, c: char) -> int
    decreases s.len(),
{
    if s.len() == 0 {
        -1
    } else if s[0] == c {
        0
    } else if first_index_of(s.drop_first(), c) == -1 {
        -1
    } else {
        first_index_of(s.drop_first(), c) + 1
    }
}

/// The text before the first comma (all of it when there is none).
pub open spec fn first_field(s: Seq<char>) -> Seq<char> {
    let i = first_index_of(s, ',');
    if i == -1 {
        s
    } else {
        s.subrange(0, i)
    }
}

/// The text between the first and second comma, if there is a first comma.
pub open spec fn second_field(s: Seq<char>) -> Option<Seq<char>> {
    let i = first_index_of(s, ',');
    if i == -1 {
        None
    } else {
        Some(first_field(s.subrange(i + 1, s.len() as int)))
    }
}

/// An ASCII decimal digit.
pub open spec fn is_digit(c: char) -> bool {
    '0' <= c <= '9'
}

/// Every character is an ASCII decimal digit.
pub open spec fn all_digits(s: Seq<char>) -> bool {
    forall|i: int| 0 <= i < s.len() ==> is_digit(#[trigger] s[i])
}

/// Value of a decimal digit.
pub open spec fn digit_value(c: char) -> int {
    (c as int) - ('0' as int)
}

/// Value of a string of decimal digits.
pub open spec fn digits_value(s: Seq<char>) -> int
    decreases s.len(),
{
    if s.len() == 0 {
        0
    } else {
        digits_value(s.drop_last()) * 10 + digit_value(s.last())
    }
}

/// A decimal `i32` as Rust's `str::parse` reads it: an optional `+` or `-`,
/// then one or more ASCII digits, with a value in range.
pub open spec fn parse_i32(s: Seq<char>) -> Option<i32> {
    let neg = s.len() > 0 && s[0] == '-';
    let body = if s.len() > 0 && (s[0] == '-' || s[0] == '+') {
        s.drop_first()
    } else {
        s
    };
    let v = if neg {
        -digits_value(body)
    } else {
        digits_value(body)
    };
    if body.len() == 0 || !all_digits(body) {
        None
    } else if i32::MIN <= v <= i32::MAX {
        Some(v as i32)
    } else {
        None
    }
}

/// `s` starts with `p`.
pub open spec fn has_prefix(s: Seq<char>, p: Seq<char>) -> bool {
    s.len() >= p.len() && s.subrange(0, p.len() as int) == p
}

/// Prefix of workspace events: `workspacev2>>`.
pub open spec fn workspace_v2_prefix() -> Seq<char> {
    seq!['w', 'o', 'r', 'k', 's', 'p', 'a', 'c', 'e', 'v', '2', '>', '>']
}

/// Prefix of focused-monitor events: `focusedmon>>`.
pub open spec fn focused_mon_prefix() -> Seq<char> {
    seq!['f', 'o', 'c', 'u', 's', 'e', 'd', 'm', 'o', 'n', '>', '>']
}

/// What an event line means: `workspacev2>>ID,NAME` gives the workspace id
/// and name; `focusedmon>>MONITOR,ID` gives the monitor and workspace id.
/// Anything else, or a field that is missing or not an `i32`, means nothing.
/// Returns (id, name, monitor).
pub open spec fn event_of(line: Seq<char>) -> Option<(i32, Seq<char>, Seq<char>)> {
    if has_prefix(line, workspace_v2_prefix()) {
        let data = line.subrange(workspace_v2_prefix().len() as int, line.len() as int);
        match (second_field(data), parse_i32(first_field(data))) {
            (Some(name), Some(id)) => Some((id, name, Seq::empty())),
            _ => None,
        }
    } else if has_prefix(line, focused_mon_prefix()) {
        let data = line.subrange(focused_mon_prefix().len() as int, line.len() as int);
        match second_field(data) {
            Some(f) => match parse_i32(f) {
                Some(id) => Some((id, Seq::empty(), first_field(data))),
                None => None,
            },
            None => None,
        }
    } else {
        None
    }
}

proof fn lemma_first_index_of(s: Seq<char>, c: char, i: int)
    requires
        0 <= i <= s.len(),
        forall|k: int| 0 <= k < i ==> s[k] != c,
    ensures
        i < s.len() && s[i] == c ==> first_index_of(s, c) == i,
        i == s.len() ==> first_index_of(s, c) == -1,
    decreases i,
{
    if i > 0 {
        lemma_first_index_of(s.drop_first(), c, i - 1);
    }
}

pub(crate) fn first_index(s: &str, c: char) -> (r: Option<usize>)
    ensures
        match r {
            Some(i) => i == first_index_of(s@, c) && i < s@.len(),
            None => first_index_of(s@, c) == -1,
        },
{
    let n = s.unicode_len();
    let mut i: usize = 0;
    while i < n
        invariant
            i <= n,
            n == s@.len(),
            forall|k: int| 0 <= k < i ==> s@[k] != c,
        decreases n - i,
    {
        if s.get_char(i) == c {
            proof {
                lemma_first_index_of(s@, c, i as int);
            }
            return Some(i);
        }
        i = i + 1;
    }
    proof {
        lemma_first_index_of(s@, c, n as int);
    }
    None
}

fn split_fields(s: &str) -> (r: (&str, Option<&str>))
    ensures
        r.0@ == first_field(s@),
        match r.1 {
            Some(f) => second_field(s@) == Some(f@),
            None => second_field(s@) is None,
        },
{
    let n = s.unicode_len();
    match first_index(s, ',') {
        None => (s, None),
        Some(i) => {
            let first = s.substring_char(0, i);
            let rest = s.substring_char(i + 1, n);
            let second = match first_index(rest, ',') {
                None => rest,
                Some(j) => rest.substring_char(0, j),
            };
            (first, Some(second))
        },
    }
}

/// Cap above which a digit string is out of `i32` range either way.
const DIGITS_CAP: i64 = 2147483649;

/// Parses a decimal `i32` as Rust's `str::parse` does.
pub fn parse_i32_field(s: &str) -> (r: Option<i32>)
    ensures
        r == parse_i32(s@),
{
    let n = s.unicode_len();
    let mut start: usize = 0;
    let mut neg = false;
    if n > 0 && s.get_char(0) == '-' {
        neg = true;
        start = 1;
    } else if n > 0 && s.get_char(0) == '+' {
        start = 1;
    }
    let body = s.substring_char(start, n);
    assert(body@ =~= if s@.len() > 0 && (s@[0] == '-' || s@[0] == '+') {
        s@.drop_first()
    } else {
        s@
    });
    let m = body.unicode_len();
    if m == 0 {
        return None;
    }
    let mut acc: i64 = 0;
    let mut i: usize = 0;
    while i < m
        invariant
            i <= m,
            m == body@.len(),
            forall|k: int| 0 <= k < i ==> is_digit(body@[k]),
            acc == if digits_value(body@.subrange(0, i as int)) > DIGITS_CAP {
                DIGITS_CAP as int
            } else {
                digits_value(body@.subrange(0, i as int))
            },
            digits_value(body@.subrange(0, i as int)) >= 0,
            body@ == if s@.len() > 0 && (s@[0] == '-' || s@[0] == '+') {
                s@.drop_first()
            } else {
                s@
            },
            neg == (s@.len() > 0 && s@[0] == '-'),
        decreases m - i,
    {
        let c = body.get_char(i);
        if !('0' <= c && c <= '9') {
            assert(!all_digits(body@)) by {
                assert(!is_digit(body@[i as int]));
            }
            return None;
        }
        assert(body@.subrange(0, i + 1).drop_last() =~= body@.subrange(0, i as int));
        let d = (c as u32 - '0' as u32) as i64;
        let next = acc * 10 + d;
        acc = if next > DIGITS_CAP {
            DIGITS_CAP
        } else {
            next
        };
        i = i + 1;
    }
    assert(body@.subrange(0, m as int) =~= body@);
    let v = if neg {
        -acc
    } else {
        acc
    };
    if v < -2147483648 || v > 2147483647 {
        None
    } else {
        Some(v as i32)
    }
}

fn starts_with_lit(s: &str, p: &str) -> (r: bool)
    ensures
        r == has_prefix(s@, p@),
{
    let n = s.unicode_len();
    let m = p.unicode_len();
    if n < m {
        return false;
    }
    let mut i: usize = 0;
    while i < m
        invariant
            i <= m,
            m <= n,
            n == s@.len(),
            m == p@.len(),
            forall|k: int| 0 <= k < i ==> s@[k] == p@[k],
        decreases m - i,
    {
        if s.get_char(i) != p.get_char(i) {
            assert(s@.subrange(0, m as int)[i as int] != p@[i as int]);
            return false;
        }
        i = i + 1;
    }
    assert(s@.subrange(0, m as int) =~= p@);
    true
}

/// Parses one line of Hyprland's event socket into a workspace event.
pub fn parse_event(line: &str) -> (r: Option<WorkspaceEvent>)
    ensures
        match r {
            Some(e) => event_of(line@) == Some(
                (e.workspace_id, e.workspace_name@, e.monitor@),
            ),
            None => event_of(line@) is None,
        },
{
    proof {
        reveal_strlit("workspacev2>>");
        reveal_strlit("focusedmon>>");
        reveal_strlit("");
        assert("workspacev2>>"@ =~= workspace_v2_prefix());
        assert("focusedmon>>"@ =~= focused_mon_prefix());
    }
    let n = line.unicode_len();
    if starts_with_lit(line, "workspacev2>>") {
        let data = line.substring_char(13, n);
        let (first, second) = split_fields(data);
        if let Some(name) = second {
            if let Some(id) = parse_i32_field(first) {
                return Some(
                    WorkspaceEvent {
                        workspace_id: id,
                        workspace_name: String::from_str(name),
                        monitor: String::new(),
                    },
                );
            }
        }
        return None;
    }
    if starts_with_lit(line, "focusedmon>>") {
        let data = line.substring_char(12, n);
        let (first, second) = split_fields(data);
        if let Some(field) = second {
            if let Some(id) = parse_i32_field(field) {
                return Some(
                    WorkspaceEvent {
                        workspace_id: id,
                        workspace_name: String::new(),
                        monitor: String::from_str(first),
                    },
                );
            }
        }
        return None;
    }
    None
}

} // verus!
