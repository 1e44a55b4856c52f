//! Rows, preferences and their interpretation for the conversation store.

use vstd::prelude::*;
use crate::api::types::{fresh_message_id, role_name, Message, Role, ToolCall};
use crate::text::{chars_of, str_eq};

verus! {

/// A saved conversation, as listed.
#[derive(Debug, Clone)]
pub struct ConversationSummary {
    pub id: i64,
    pub title: String,
    pub agent_name: String,
    pub model: String,
    pub created_at: String,
    pub message_count: usize,
    pub is_favorited: bool,
}

/// The role stored under a name; an unknown name reads as `User`.
pub open spec fn role_from_name(s: Seq<char>) -> Role {
    if s == "user"@ {
        Role::User
    } else if s == "assistant"@ {
        Role::Assistant
    } else if s == "system"@ {
        Role::System
    } else if s == "tool"@ {
        Role::Tool
    } else {
        Role::User
    }
}

impl Role {
    /// The role stored under a name; an unknown name reads as `User`.
    pub fn from_str(s: &str) -> (r: Role)
        ensures
            r == role_from_name(s@),
    {
        if str_eq(s, "user") {
            Role::User
        } else if str_eq(s, "assistant") {
            Role::Assistant
        } else if str_eq(s, "system") {
            Role::System
        } else if str_eq(s, "tool") {
            Role::Tool
        } else {
            Role::User
        }
    }
}

/// Reading back the name a role is stored under gives the role.
pub proof fn law_role_round_trip(r: Role)
    ensures
        role_from_name(role_name(r)) == r,
{
    reveal_strlit("user");
    reveal_strlit("assistant");
    reveal_strlit("system");
    reveal_strlit("tool");
    match r {
        Role::System => {
            assert("system"@.len() != "user"@.len());
            assert("system"@.len() != "assistant"@.len());
        },
        Role::User => {},
        Role::Assistant => {
            assert("assistant"@.len() != "user"@.len());
        },
        Role::Tool => {
            assert("tool"@[0] != "user"@[0]);
            assert("tool"@.len() != "assistant"@.len());
            assert("tool"@.len() != "system"@.len());
        },
    }
}

/// A message loaded from a stored row, under a fresh identifier.
pub fn message_from_row(
    role: &str,
    content: String,
    tool_calls: Option<Vec<ToolCall>>,
    tool_call_id: Option<String>,
) -> (m: Message)
    ensures
        m.role == role_from_name(role@),
        m.content == content,
        m.tool_calls == tool_calls,
        m.tool_call_id == tool_call_id,
        m.name is None,
{
    Message {
        id: fresh_message_id(),
        role: Role::from_str(role),
        content,
        tool_calls,
        tool_call_id,
        name: None,
    }
}

/// The value of a decimal digit character.
pub open spec fn digit_value(c: char) -> nat {
    ((c as u32) - ('0' as u32)) as nat
}

/// A character is an ASCII decimal digit.
pub open spec fn is_digit(c: char) -> bool {
    '0' <= c <= '9'
}

/// The number a sequence of decimal digits denotes.
pub open spec fn digits_value(d: Seq<char>) -> nat
    decreases d.len(),
{
    if d.len() == 0 {
        0
    } else {
        digits_value(d.drop_last()) * 10 + digit_value(d.last())
    }
}

/// The text after an optional leading `+`.
pub open spec fn digits_part(s: Seq<char>) -> Seq<char> {
    if s.len() > 0 && s[0] == '+' {
        s.drop_first()
    } else {
        s
    }
}

/// Every character is a decimal digit.
pub open spec fn all_digits(d: Seq<char>) -> bool {
    forall|i: int| 0 <= i < d.len() ==> is_digit(#[trigger] d[i])
}

/// `str::parse::<usize>`: an optional `+`, then one or more decimal digits
/// whose value fits in `usize`.
pub open spec fn parse_usize(s: Seq<char>) -> Option<nat> {
    let d = digits_part(s);
    if d.len() == 0 || !all_digits(d) {
        None
    } else if digits_value(d) > usize::MAX {
        None
    } else {
        Some(digits_value(d))
    }
}

proof fn lemma_parse_none_on_non_digit(s: Seq<char>, d: Seq<char>, w: int)
    requires
        d == (if s.len() > 0 && s[0] == '+' {
            s.drop_first()
        } else {
            s
        }),
        0 <= w < d.len(),
        !is_digit(d[w]),
    ensures
        parse_usize(s) is None,
{
    assert(!all_digits(d));
}

proof fn lemma_digits_value_grows(d: Seq<char>, k: int)
    requires
        0 <= k <= d.len(),
        forall|i: int| 0 <= i < d.len() ==> is_digit(#[trigger] d[i]),
    ensures
        digits_value(d.take(k)) <= digits_value(d),
    decreases d.len() - k,
{
    if k < d.len() {
        lemma_digits_value_grows(d, k + 1);
        assert(d.take(k + 1).drop_last() =~= d.take(k));
    } else {
        assert(d.take(k) =~= d);
    }
}

/// `str::parse::<usize>`.
pub fn parse_usize_text(s: &str) -> (r: Option<usize>)
    ensures
        match r {
            Some(n) => parse_usize(s@) == Some(n as nat),
            None => parse_usize(s@) is None,
        },
{
    let v = chars_of(s);
    let start: usize = if v.len() > 0 && v[0] == '+' {
        1
    } else {
        0
    };
    let ghost d = if s@.len() > 0 && s@[0] == '+' {
        s@.drop_first()
    } else {
        s@
    };
    assert(d =~= v@.subrange(start as int, v@.len() as int));
    if start >= v.len() {
        return None;
    }
    let mut i = start;
    while i < v.len()
        invariant
            start <= i <= v@.len(),
            d == v@.subrange(start as int, v@.len() as int),
            v@ == s@,
            d == (if s@.len() > 0 && s@[0] == '+' {
                s@.drop_first()
            } else {
                s@
            }),
            forall|j: int| start <= j < i ==> is_digit(#[trigger] v@[j]),
        decreases v@.len() - i,
    {
        if !('0' <= v[i] && v[i] <= '9') {
            assert(d[i - start] == v@[i as int]);
            assert(!is_digit(d[i - start]));
            proof {
                let w = i - start;
                assert(0 <= w < d.len() && !is_digit(d[w]));
                lemma_parse_none_on_non_digit(s@, d, w as int);
            }
            return None;
        }
        i = i + 1;
    }
    assert forall|j: int| 0 <= j < d.len() implies is_digit(#[trigger] d[j]) by {
        assert(d[j] == v@[start + j]);
    }
    let mut value: usize = 0;
    let mut k = start;
    while k < v.len()
        invariant
            start <= k <= v@.len(),
            d == v@.subrange(start as int, v@.len() as int),
            v@ == s@,
            d == (if s@.len() > 0 && s@[0] == '+' {
                s@.drop_first()
            } else {
                s@
            }),
            forall|j: int| 0 <= j < d.len() ==> is_digit(#[trigger] d[j]),
            value == digits_value(d.take(k - start)),
        decreases v@.len() - k,
    {
        assert(d[k - start] == v@[k as int]);
        assert(is_digit(v@[k as int]));
        let digit = (v[k] as u32 - '0' as u32) as usize;
        assert(d.take(k + 1 - start).drop_last() =~= d.take(k - start));
        assert(d.take(k + 1 - start).last() == v@[k as int]);
        match value.checked_mul(10) {
            Some(m) => match m.checked_add(digit) {
                Some(nv) => {
                    value = nv;
                },
                None => {
                    proof {
                        lemma_digits_value_grows(d, k + 1 - start);
                    }
                    return None;
                },
            },
            None => {
                proof {
                    lemma_digits_value_grows(d, k + 1 - start);
                }
                return None;
            },
        }
        k = k + 1;
    }
    assert(d.take(d.len() as int) =~= d);
    Some(value)
}

/// The number of conversations kept: the `max_conversations` preference
/// when it parses as a count, else fifty.
pub open spec fn conversation_limit_of(pref: Option<Seq<char>>) -> nat {
    match pref {
        Some(p) => match parse_usize(p) {
            Some(n) => n,
            None => 50,
        },
        None => 50,
    }
}

/// The number of conversations kept.
pub fn conversation_limit(pref: Option<&str>) -> (n: usize)
    ensures
        n == conversation_limit_of(
            match pref {
                Some(p) => Some(p@),
                None => None,
            },
        ),
{
    match pref {
        Some(p) => match parse_usize_text(p) {
            Some(n) => n,
            None => 50,
        },
        None => 50,
    }
}

/// The stored favourite flag after a toggle: one when it was zero, zero
/// otherwise.
pub fn toggled_favorite(current: i64) -> (r: i64)
    ensures
        r == (if current == 0 {
            1i64
        } else {
            0i64
        }),
{
    if current == 0 {
        1
    } else {
        0
    }
}

/// Whether the conversation is saved on exit under the `auto_save`
/// preference, which defaults to `on_exit`.
pub fn saves_on_exit(pref: Option<&str>) -> (b: bool)
    ensures
        b == match pref {
            Some(p) => p@ == "on_exit"@ || p@ == "always"@,
            None => true,
        },
{
    match pref {
        Some(p) => str_eq(p, "on_exit") || str_eq(p, "always"),
        None => true,
    }
}

} // verus!
