//! What a task row shows: its count of focus sessions against the estimate,
//! and how the estimate steps up and down.

use vstd::prelude::*;
use vstd::string::*;
use crate::text::{decimal, push_decimal};

verus! {

/// The most focus sessions a task can be estimated to take with the `+`
/// button.
pub const MAX_ESTIMATE: u32 = 20;

/// The badge of a task: nothing while no session is done or estimated;
/// otherwise a tomato, the sessions done, and the estimate where there is
/// one.
pub open spec fn badge_text(done: u32, estimated: u32) -> Option<Seq<char>> {
    if done == 0 && estimated == 0 {
        None
    } else if estimated > 0 {
        Some(seq!['🍅', ' '] + decimal(done as nat) + seq!['/'] + decimal(estimated as nat))
    } else {
        Some(seq!['🍅', ' '] + decimal(done as nat))
    }
}

/// The badge of a task (see [`badge_text`]); `None` hides it.
pub fn pomo_badge(done: u32, estimated: u32) -> (badge: Option<String>)
    ensures
        match badge {
            Some(s) => badge_text(done, estimated) == Some(s@),
            None => badge_text(done, estimated) is None,
        },
{
    if done == 0 && estimated == 0 {
        return None;
    }
    let mut s = String::new();
    proof { reveal_strlit("🍅 "); }
    s.append("🍅 ");
    push_decimal(&mut s, done as u128);
    if estimated > 0 {
        proof { reveal_strlit("/"); }
        s.append("/");
        push_decimal(&mut s, estimated as u128);
    }
    assert(badge_text(done, estimated) == Some(s@));
    Some(s)
}

/// The estimate after the `+` button: one more, at most `MAX_ESTIMATE`.
pub fn estimate_up(current: u32) -> (next: u32)
    requires
        current < u32::MAX,
    ensures
        next == if current + 1 < MAX_ESTIMATE { current + 1 } else { MAX_ESTIMATE as int },
{
    let next = current + 1;
    if next < MAX_ESTIMATE { next } else { MAX_ESTIMATE }
}

/// The estimate after the `-` button: one less, never below zero.
pub fn estimate_down(current: u32) -> (next: u32)
    ensures
        next == if current > 0 { current - 1 } else { 0 },
{
    current.saturating_sub(1)
}

/// Stepping an estimate up from below the cap and back down gives it back.
pub proof fn lemma_estimate_steps_undo(current: u32)
    requires
        current < MAX_ESTIMATE,
    ensures
        ({
            let up: int = if current + 1 < MAX_ESTIMATE { current + 1 } else { MAX_ESTIMATE as int };
            (if up > 0 { up - 1 } else { 0 }) == current
        }),
{
}

/// The footer of the task list: how many tasks are active (not done) and
/// how many are done.
pub open spec fn footer_text(active: nat, done: nat) -> Seq<char> {
    decimal(active) + seq![' ', 'a', 'c', 't', 'i', 'v', 'e', ' ', '·', ' '] + decimal(done) + seq![
        ' ',
        'd',
        'o',
        'n',
        'e',
    ]
}

/// The footer of the task list (see [`footer_text`]).
pub fn count_footer(active: usize, done: usize) -> (s: String)
    ensures
        s@ == footer_text(active as nat, done as nat),
{
    let mut s = String::new();
    push_decimal(&mut s, active as u128);
    proof { reveal_strlit(" active · "); }
    s.append(" active · ");
    push_decimal(&mut s, done as u128);
    proof { reveal_strlit(" done"); }
    s.append(" done");
    s
}

/// Whether `c` is white space: the characters of Unicode's `White_Space`
/// property, which `char::is_whitespace` and `str::trim` go by.
pub open spec fn is_space(c: char) -> bool {
    let n = c as int;
    ||| 0x9 <= n <= 0xd
    ||| n == 0x20
    ||| n == 0x85
    ||| n == 0xa0
    ||| n == 0x1680
    ||| 0x2000 <= n <= 0x200a
    ||| n == 0x2028
    ||| n == 0x2029
    ||| n == 0x202f
    ||| n == 0x205f
    ||| n == 0x3000
}

/// Whether `c` is white space (see [`is_space`]).
pub fn space_char(c: char) -> (r: bool)
    ensures
        r == is_space(c),
{
    let n = c as u32;
    (0x9 <= n && n <= 0xd) || n == 0x20 || n == 0x85 || n == 0xa0 || n == 0x1680 || (0x2000 <= n && n <= 0x200a)
        || n == 0x2028 || n == 0x2029 || n == 0x202f || n == 0x205f || n == 0x3000
}

/// Whether `s[i..j]` is `s` with its leading and trailing white space cut
/// off, and something is left.
pub open spec fn trimmed_at(s: Seq<char>, i: int, j: int) -> bool {
    &&& 0 <= i < j <= s.len()
    &&& !is_space(s[i])
    &&& !is_space(s[j - 1])
    &&& forall|k: int| 0 <= k < i ==> is_space(#[trigger] s[k])
    &&& forall|k: int| j <= k < s.len() ==> is_space(#[trigger] s[k])
}

/// The title a task gets from the text typed for it: the text with its
/// leading and trailing white space cut off, or `None` where nothing but
/// white space was typed (such a task is not added or renamed).
pub fn task_title(text: &str) -> (title: Option<String>)
    ensures
        title is None <==> forall|k: int| 0 <= k < text@.len() ==> is_space(#[trigger] text@[k]),
        title matches Some(t) ==> exists|i: int, j: int| trimmed_at(text@, i, j) && t@ == text@.subrange(i, j),
{
    let n = text.unicode_len();
    let mut i: usize = 0;
    while i < n && space_char(text.get_char(i))
        invariant
            n == text@.len(),
            i <= n,
            forall|k: int| 0 <= k < i ==> is_space(#[trigger] text@[k]),
        decreases n - i,
    {
        i = i + 1;
    }
    if i == n {
        return None;
    }
    let mut j: usize = n;
    while j > i + 1 && space_char(text.get_char(j - 1))
        invariant
            n == text@.len(),
            i < j <= n,
            !is_space(text@[i as int]),
            forall|k: int| j <= k < n ==> is_space(#[trigger] text@[k]),
        decreases j,
    {
        j = j - 1;
    }
    let title = String::from_str(text.substring_char(i, j));
    assert(trimmed_at(text@, i as int, j as int));
    Some(title)
}

} // verus!
