//! The persisted document format: a pretty-printed JSON object holding the
//! list's name, its tasks and the allocator state. The writer here produces
//! exactly the sequence of characters that [`ser_doc`] describes, and the
//! reader accepts any document of that shape, with insignificant whitespace
//! and field order.

use vstd::prelude::*;

use crate::error::TodoError;
use crate::task::{opt_view, Task, TaskM, TaskStatus};
use crate::task_list::{task_views, TaskList, TaskListM};

verus! {

// ---------------------------------------------------------------------------
// The document the writer produces, as a mathematical sequence of characters.
// ---------------------------------------------------------------------------

/// The decimal digit `d` (0 to 9) as a character.
pub open spec fn digit_char(d: int) -> char {
    if d == 0 { '0' } else if d == 1 { '1' } else if d == 2 { '2' } else if d == 3 { '3' }
    else if d == 4 { '4' } else if d == 5 { '5' } else if d == 6 { '6' } else if d == 7 { '7' }
    else if d == 8 { '8' } else { '9' }
}

/// The hexadecimal digit `d` (0 to 15) as a lower-case character.
pub open spec fn hex_char(d: int) -> char {
    if d < 10 { digit_char(d) }
    else if d == 10 { 'a' } else if d == 11 { 'b' } else if d == 12 { 'c' }
    else if d == 13 { 'd' } else if d == 14 { 'e' } else { 'f' }
}

/// The decimal digits of `n`, most significant first; empty for 0.
pub open spec fn dec_digits(n: nat) -> Seq<char>
    decreases n,
{
    if n == 0 {
        Seq::empty()
    } else {
        dec_digits(n / 10) + seq![digit_char((n % 10) as int)]
    }
}

/// A non-negative integer as JSON renders it.
pub open spec fn ser_usize(n: usize) -> Seq<char> {
    if n == 0 {
        seq!['0']
    } else {
        dec_digits(n as nat)
    }
}

/// How one character appears inside a JSON string: quote and backslash get a
/// backslash, control characters become `\u00XX`, everything else stands as
/// itself.
pub open spec fn esc_char(c: char) -> Seq<char> {
    if c == '"' {
        seq!['\\', '"']
    } else if c == '\\' {
        seq!['\\', '\\']
    } else if (c as u32) < 0x20 {
        seq!['\\', 'u', '0', '0', hex_char((c as u32 / 16) as int), hex_char((c as u32 % 16) as int)]
    } else {
        seq![c]
    }
}

/// A whole character sequence escaped for a JSON string body.
pub open spec fn esc_string(s: Seq<char>) -> Seq<char>
    decreases s.len(),
{
    if s.len() == 0 {
        Seq::empty()
    } else {
        esc_char(s[0]) + esc_string(s.subrange(1, s.len() as int))
    }
}

/// A free-form text as a JSON string: quoted and escaped.
pub open spec fn ser_string(s: Seq<char>) -> Seq<char> {
    seq!['"'] + esc_string(s) + seq!['"']
}

/// A fixed word as a JSON string: quoted, nothing in it needs escaping.
pub open spec fn quoted(s: Seq<char>) -> Seq<char> {
    seq!['"'] + s + seq!['"']
}

/// The literal status tag stored in the document.
pub open spec fn status_name(st: TaskStatus) -> Seq<char> {
    match st {
        TaskStatus::Pending => "Pending"@,
        TaskStatus::Suspended => "Suspended"@,
        TaskStatus::Completed => "Completed"@,
    }
}

/// `k` spaces.
pub open spec fn spaces(k: nat) -> Seq<char>
    decreases k,
{
    if k == 0 {
        Seq::empty()
    } else {
        spaces((k - 1) as nat) + seq![' ']
    }
}

/// A line break followed by `k` spaces of indentation.
pub open spec fn nli(k: nat) -> Seq<char> {
    seq!['\n'] + spaces(k)
}

/// `": "` between a key and its value.
pub open spec fn colon() -> Seq<char> {
    seq![':', ' ']
}

/// An optional timestamp: `null` or a JSON string.
pub open spec fn ser_opt(o: Option<Seq<char>>) -> Seq<char> {
    match o {
        Option::Some(s) => ser_string(s),
        Option::None => "null"@,
    }
}

/// One task as a pretty-printed JSON object, fields indented six spaces.
pub open spec fn ser_task(t: TaskM) -> Seq<char> {
    seq!['{'] + nli(6) + quoted("id"@) + colon() + ser_usize(t.id) + seq![',']
        + nli(6) + quoted("description"@) + colon() + ser_string(t.description) + seq![',']
        + nli(6) + quoted("status"@) + colon() + quoted(status_name(t.status)) + seq![',']
        + nli(6) + quoted("created_at"@) + colon() + ser_string(t.created_at) + seq![',']
        + nli(6) + quoted("completed_at"@) + colon() + ser_opt(t.completed_at)
        + nli(4) + seq!['}']
}

/// The tasks from some position on: each on its own line, separated by
/// commas.
pub open spec fn ser_tasks_rest(ts: Seq<TaskM>) -> Seq<char>
    decreases ts.len(),
{
    if ts.len() == 0 {
        Seq::empty()
    } else {
        nli(4) + ser_task(ts[0]) + if ts.len() == 1 {
            Seq::<char>::empty()
        } else {
            seq![','] + ser_tasks_rest(ts.subrange(1, ts.len() as int))
        }
    }
}

/// The task array: `[]` when empty, otherwise one task per line.
pub open spec fn ser_tasks(ts: Seq<TaskM>) -> Seq<char> {
    if ts.len() == 0 {
        seq!['[', ']']
    } else {
        seq!['['] + ser_tasks_rest(ts) + nli(2) + seq![']']
    }
}

/// The whole persisted document for a task list.
pub open spec fn ser_doc(m: TaskListM) -> Seq<char> {
    seq!['{'] + nli(2) + quoted("name"@) + colon() + ser_string(m.name) + seq![',']
        + nli(2) + quoted("tasks"@) + colon() + ser_tasks(m.tasks) + seq![',']
        + nli(2) + quoted("next_id"@) + colon() + ser_usize(m.next_id)
        + nli(0) + seq!['}']
}

// ---------------------------------------------------------------------------
// The reader, as a mathematical function: a recursive-descent parse of the
// document shape. Whitespace between tokens and the order of object fields
// are insignificant; a missing `completed_at` means `null`; anything else
// out of shape parses to `None`.
// ---------------------------------------------------------------------------

/// JSON insignificant whitespace.
pub open spec fn is_ws(c: char) -> bool {
    c == ' ' || c == '\n' || c == '\t' || c == '\r'
}

/// The first position at or after `i` holding a non-whitespace character
/// (or the end of the input).
pub open spec fn sp_skip_ws(s: Seq<char>, i: int) -> int
    decreases s.len() - i,
{
    if 0 <= i < s.len() && is_ws(s[i]) {
        sp_skip_ws(s, i + 1)
    } else {
        i
    }
}

/// A decimal digit.
pub open spec fn is_digit(c: char) -> bool {
    48 <= c as u32 <= 57
}

/// The value of a decimal digit.
pub open spec fn digit_val(c: char) -> int {
    c as u32 - 48
}

/// The value of a hexadecimal digit, or -1 for any other character.
pub open spec fn hex_val(c: char) -> int {
    if is_digit(c) {
        digit_val(c)
    } else if 97 <= c as u32 <= 102 {
        c as u32 - 87
    } else if 65 <= c as u32 <= 70 {
        c as u32 - 55
    } else {
        -1
    }
}

/// A hexadecimal digit, upper or lower case.
pub open spec fn is_hex(c: char) -> bool {
    hex_val(c) >= 0
}

/// Four hexadecimal digits at `i`, as a number.
pub open spec fn sp_hex4(s: Seq<char>, i: int) -> Option<u32> {
    if 0 <= i && i + 4 <= s.len() && is_hex(s[i]) && is_hex(s[i + 1]) && is_hex(s[i + 2]) && is_hex(
        s[i + 3],
    ) {
        Option::Some(
            ((hex_val(s[i]) * 4096 + hex_val(s[i + 1]) * 256 + hex_val(s[i + 2]) * 16 + hex_val(
                s[i + 3],
            )) as u32),
        )
    } else {
        Option::None
    }
}

/// A run of digits starting at `i`, accumulated into `acc`; fails when the
/// value would not fit the machine word. Stops at the first non-digit.
pub open spec fn sp_num_loop(s: Seq<char>, i: int, acc: usize) -> Option<(usize, int)>
    decreases s.len() - i,
{
    if 0 <= i < s.len() && is_digit(s[i]) {
        if acc * 10 + digit_val(s[i]) <= usize::MAX {
            sp_num_loop(s, i + 1, (acc * 10 + digit_val(s[i])) as usize)
        } else {
            Option::None
        }
    } else {
        Option::Some((acc, i))
    }
}

/// A non-negative integer: at least one digit, fitting the machine word.
pub open spec fn sp_parse_num(s: Seq<char>, i: int) -> Option<(usize, int)> {
    if 0 <= i < s.len() && is_digit(s[i]) {
        sp_num_loop(s, i, 0)
    } else {
        Option::None
    }
}

/// The body of a JSON string from `i` (just past the opening quote) to its
/// closing quote: escapes are decoded, raw control characters are refused,
/// and a surrogate pair of `\u` escapes yields the character it encodes.
pub open spec fn sp_str_body(s: Seq<char>, i: int, acc: Seq<char>) -> Option<(Seq<char>, int)>
    decreases s.len() - i,
{
    if !(0 <= i < s.len()) {
        Option::None
    } else if s[i] == '"' {
        Option::Some((acc, i + 1))
    } else if s[i] == '\\' {
        if i + 1 >= s.len() {
            Option::None
        } else {
            let e = s[i + 1];
            if e == '"' {
                sp_str_body(s, i + 2, acc.push('"'))
            } else if e == '\\' {
                sp_str_body(s, i + 2, acc.push('\\'))
            } else if e == '/' {
                sp_str_body(s, i + 2, acc.push('/'))
            } else if e == 'b' {
                sp_str_body(s, i + 2, acc.push('\u{0008}'))
            } else if e == 'f' {
                sp_str_body(s, i + 2, acc.push('\u{000C}'))
            } else if e == 'n' {
                sp_str_body(s, i + 2, acc.push('\n'))
            } else if e == 'r' {
                sp_str_body(s, i + 2, acc.push('\r'))
            } else if e == 't' {
                sp_str_body(s, i + 2, acc.push('\t'))
            } else if e == 'u' {
                match sp_hex4(s, i + 2) {
                    Option::None => Option::None,
                    Option::Some(v) => if v < 0xD800 || 0xDFFF < v {
                        sp_str_body(s, i + 6, acc.push(v as char))
                    } else if v < 0xDC00 {
                        if i + 12 <= s.len() && s[i + 6] == '\\' && s[i + 7] == 'u' {
                            match sp_hex4(s, i + 8) {
                                Option::None => Option::None,
                                Option::Some(lo) => if 0xDC00 <= lo <= 0xDFFF {
                                    sp_str_body(
                                        s,
                                        i + 12,
                                        acc.push(
                                            (((0x10000 + (v as int - 0xD800) * 0x400 + (
                                            lo as int - 0xDC00)) as u32) as char),
                                        ),
                                    )
                                } else {
                                    Option::None
                                },
                            }
                        } else {
                            Option::None
                        }
                    } else {
                        Option::None
                    },
                }
            } else {
                Option::None
            }
        }
    } else if (s[i] as u32) < 0x20 {
        Option::None
    } else {
        sp_str_body(s, i + 1, acc.push(s[i]))
    }
}

/// A quoted JSON string starting at `i`.
pub open spec fn sp_parse_str(s: Seq<char>, i: int) -> Option<(Seq<char>, int)> {
    if 0 <= i < s.len() && s[i] == '"' {
        sp_str_body(s, i + 1, Seq::empty())
    } else {
        Option::None
    }
}

/// The status a literal tag denotes, if any.
pub open spec fn status_of_name(w: Seq<char>) -> Option<TaskStatus> {
    if w == "Pending"@ {
        Option::Some(TaskStatus::Pending)
    } else if w == "Suspended"@ {
        Option::Some(TaskStatus::Suspended)
    } else if w == "Completed"@ {
        Option::Some(TaskStatus::Completed)
    } else {
        Option::None
    }
}

/// The fields of a task object gathered so far. `completed_seen`
/// distinguishes an absent `completed_at` (which defaults to `null`) from an
/// explicit one, so a duplicate can be refused.
pub ghost struct TaskAcc {
    pub id: Option<usize>,
    pub description: Option<Seq<char>>,
    pub status: Option<TaskStatus>,
    pub created_at: Option<Seq<char>>,
    pub completed_seen: bool,
    pub completed_at: Option<Seq<char>>,
}

/// How many task fields are still unseen; parsing one more field always
/// lowers it, which bounds the field loop.
pub open spec fn task_unseen(a: TaskAcc) -> nat {
    (if a.id is Some { 0nat } else { 1nat }) + (if a.description is Some { 0nat } else { 1nat })
        + (if a.status is Some { 0nat } else { 1nat }) + (if a.created_at is Some { 0nat } else { 1nat })
        + (if a.completed_seen { 0nat } else { 1nat })
}

/// A gathered task, once the object closes: the first four fields are
/// required, `completed_at` defaults to `null`.
pub open spec fn task_finish(a: TaskAcc) -> Option<TaskM> {
    if a.id is Some && a.description is Some && a.status is Some && a.created_at is Some {
        Option::Some(
            (TaskM {
                id: a.id.unwrap(),
                description: a.description.unwrap(),
                status: a.status.unwrap(),
                created_at: a.created_at.unwrap(),
                completed_at: a.completed_at,
            }),
        )
    } else {
        Option::None
    }
}

/// One `"key": value` pair of a task object at `i`, then either a comma and
/// the next pair or the closing brace. A key may come in any order; an
/// unknown or repeated key is refused.
pub open spec fn sp_task_fields(s: Seq<char>, i: int, a: TaskAcc) -> Option<(TaskAcc, int)>
    decreases task_unseen(a), 0int,
{
    match sp_parse_str(s, i) {
        Option::None => Option::None,
        Option::Some((key, j)) => {
            let j2 = sp_skip_ws(s, j);
            if !(0 <= j2 < s.len() && s[j2] == ':') {
                Option::None
            } else {
                let j3 = sp_skip_ws(s, j2 + 1);
                if key == "id"@ {
                    if a.id is Some {
                        Option::None
                    } else {
                        match sp_parse_num(s, j3) {
                            Option::None => Option::None,
                            Option::Some((v, j4)) => sp_task_after(
                                s,
                                j4,
                                TaskAcc { id: Option::Some(v), ..a },
                            ),
                        }
                    }
                } else if key == "description"@ {
                    if a.description is Some {
                        Option::None
                    } else {
                        match sp_parse_str(s, j3) {
                            Option::None => Option::None,
                            Option::Some((w, j4)) => sp_task_after(
                                s,
                                j4,
                                TaskAcc { description: Option::Some(w), ..a },
                            ),
                        }
                    }
                } else if key == "status"@ {
                    if a.status is Some {
                        Option::None
                    } else {
                        match sp_parse_str(s, j3) {
                            Option::None => Option::None,
                            Option::Some((w, j4)) => match status_of_name(w) {
                                Option::None => Option::None,
                                Option::Some(st) => sp_task_after(
                                    s,
                                    j4,
                                    TaskAcc { status: Option::Some(st), ..a },
                                ),
                            },
                        }
                    }
                } else if key == "created_at"@ {
                    if a.created_at is Some {
                        Option::None
                    } else {
                        match sp_parse_str(s, j3) {
                            Option::None => Option::None,
                            Option::Some((w, j4)) => sp_task_after(
                                s,
                                j4,
                                TaskAcc { created_at: Option::Some(w), ..a },
                            ),
                        }
                    }
                } else if key == "completed_at"@ {
                    if a.completed_seen {
                        Option::None
                    } else {
                        if 0 <= j3 < s.len() && s[j3] == 'n' {
                            if j3 + 4 <= s.len() && s[j3 + 1] == 'u' && s[j3 + 2] == 'l' && s[j3
                                + 3] == 'l' {
                                sp_task_after(
                                    s,
                                    j3 + 4,
                                    TaskAcc { completed_seen: true, completed_at: Option::None, ..a },
                                )
                            } else {
                                Option::None
                            }
                        } else {
                            match sp_parse_str(s, j3) {
                                Option::None => Option::None,
                                Option::Some((w, j4)) => sp_task_after(
                                    s,
                                    j4,
                                    TaskAcc {
                                        completed_seen: true,
                                        completed_at: Option::Some(w),
                                        ..a
                                    },
                                ),
                            }
                        }
                    }
                } else {
                    Option::None
                }
            }
        },
    }
}

/// After a task field's value: a comma leads to the next field, a closing
/// brace ends the object.
pub open spec fn sp_task_after(s: Seq<char>, i: int, a: TaskAcc) -> Option<(TaskAcc, int)>
    decreases task_unseen(a), 1int,
{
    let k = sp_skip_ws(s, i);
    if 0 <= k < s.len() && s[k] == ',' {
        if task_unseen(a) == 0 {
            Option::None
        } else {
            sp_task_fields(s, sp_skip_ws(s, k + 1), a)
        }
    } else if 0 <= k < s.len() && s[k] == '}' {
        Option::Some((a, k + 1))
    } else {
        Option::None
    }
}

/// A task object starting at `i`.
pub open spec fn sp_task(s: Seq<char>, i: int) -> Option<(TaskM, int)> {
    if 0 <= i < s.len() && s[i] == '{' {
        let j = sp_skip_ws(s, i + 1);
        if 0 <= j < s.len() && s[j] == '}' {
            Option::None  // the four required fields are missing
        } else {
            match sp_task_fields(
                s,
                j,
                TaskAcc {
                    id: Option::None,
                    description: Option::None,
                    status: Option::None,
                    created_at: Option::None,
                    completed_seen: false,
                    completed_at: Option::None,
                },
            ) {
                Option::None => Option::None,
                Option::Some((a, j2)) => match task_finish(a) {
                    Option::None => Option::None,
                    Option::Some(t) => Option::Some((t, j2)),
                },
            }
        }
    } else {
        Option::None
    }
}

/// The elements of a non-empty task array, from the first task at `i` to the
/// closing bracket.
pub open spec fn sp_tasks_items(s: Seq<char>, i: int, acc: Seq<TaskM>) -> Option<
    (Seq<TaskM>, int),
>
    decreases s.len() - i,
{
    match sp_task(s, i) {
        Option::None => Option::None,
        Option::Some((t, j)) => {
            let k = sp_skip_ws(s, j);
            if 0 <= k < s.len() && s[k] == ',' {
                let k2 = sp_skip_ws(s, k + 1);
                if k2 <= i || k2 > s.len() {
                    Option::None  // cannot happen: parsing always advances
                } else {
                    sp_tasks_items(s, k2, acc.push(t))
                }
            } else if 0 <= k < s.len() && s[k] == ']' {
                Option::Some((acc.push(t), k + 1))
            } else {
                Option::None
            }
        },
    }
}

/// A task array starting at `i`.
pub open spec fn sp_tasks(s: Seq<char>, i: int) -> Option<(Seq<TaskM>, int)> {
    if 0 <= i < s.len() && s[i] == '[' {
        let j = sp_skip_ws(s, i + 1);
        if 0 <= j < s.len() && s[j] == ']' {
            Option::Some((Seq::empty(), j + 1))
        } else {
            sp_tasks_items(s, j, Seq::empty())
        }
    } else {
        Option::None
    }
}

/// The fields of the top-level object gathered so far.
pub ghost struct DocAcc {
    pub name: Option<Seq<char>>,
    pub tasks: Option<Seq<TaskM>>,
    pub next_id: Option<usize>,
}

/// How many top-level fields are still unseen.
pub open spec fn doc_unseen(a: DocAcc) -> nat {
    (if a.name is Some { 0nat } else { 1nat }) + (if a.tasks is Some { 0nat } else { 1nat }) + (
    if a.next_id is Some { 0nat } else { 1nat })
}

/// The gathered document, once the object closes: all three fields are
/// required.
pub open spec fn doc_finish(a: DocAcc) -> Option<TaskListM> {
    if a.name is Some && a.tasks is Some && a.next_id is Some {
        Option::Some(
            (TaskListM { name: a.name.unwrap(), tasks: a.tasks.unwrap(), next_id: a.next_id.unwrap() }),
        )
    } else {
        Option::None
    }
}

/// One `"key": value` pair of the top-level object at `i`.
pub open spec fn sp_doc_fields(s: Seq<char>, i: int, a: DocAcc) -> Option<(DocAcc, int)>
    decreases doc_unseen(a), 0int,
{
    match sp_parse_str(s, i) {
        Option::None => Option::None,
        Option::Some((key, j)) => {
            let j2 = sp_skip_ws(s, j);
            if !(0 <= j2 < s.len() && s[j2] == ':') {
                Option::None
            } else {
                let j3 = sp_skip_ws(s, j2 + 1);
                if key == "name"@ {
                    if a.name is Some {
                        Option::None
                    } else {
                        match sp_parse_str(s, j3) {
                            Option::None => Option::None,
                            Option::Some((w, j4)) => sp_doc_after(
                                s,
                                j4,
                                DocAcc { name: Option::Some(w), ..a },
                            ),
                        }
                    }
                } else if key == "tasks"@ {
                    if a.tasks is Some {
                        Option::None
                    } else {
                        match sp_tasks(s, j3) {
                            Option::None => Option::None,
                            Option::Some((ts, j4)) => sp_doc_after(
                                s,
                                j4,
                                DocAcc { tasks: Option::Some(ts), ..a },
                            ),
                        }
                    }
                } else if key == "next_id"@ {
                    if a.next_id is Some {
                        Option::None
                    } else {
                        match sp_parse_num(s, j3) {
                            Option::None => Option::None,
                            Option::Some((v, j4)) => sp_doc_after(
                                s,
                                j4,
                                DocAcc { next_id: Option::Some(v), ..a },
                            ),
                        }
                    }
                } else {
                    Option::None
                }
            }
        },
    }
}

/// After a top-level field's value: a comma leads to the next field, a
/// closing brace ends the object.
pub open spec fn sp_doc_after(s: Seq<char>, i: int, a: DocAcc) -> Option<(DocAcc, int)>
    decreases doc_unseen(a), 1int,
{
    let k = sp_skip_ws(s, i);
    if 0 <= k < s.len() && s[k] == ',' {
        if doc_unseen(a) == 0 {
            Option::None
        } else {
            sp_doc_fields(s, sp_skip_ws(s, k + 1), a)
        }
    } else if 0 <= k < s.len() && s[k] == '}' {
        Option::Some((a, k + 1))
    } else {
        Option::None
    }
}

/// The whole document: one top-level object with nothing but whitespace
/// around it, holding `name`, `tasks` and `next_id`.
pub open spec fn sp_doc(s: Seq<char>) -> Option<TaskListM> {
    let i = sp_skip_ws(s, 0);
    if 0 <= i < s.len() && s[i] == '{' {
        let j = sp_skip_ws(s, i + 1);
        if 0 <= j < s.len() && s[j] == '}' {
            Option::None  // the three required fields are missing
        } else {
            match sp_doc_fields(
                s,
                j,
                DocAcc { name: Option::None, tasks: Option::None, next_id: Option::None },
            ) {
                Option::None => Option::None,
                Option::Some((a, j2)) => {
                    if sp_skip_ws(s, j2) == s.len() {
                        doc_finish(a)
                    } else {
                        Option::None
                    }
                },
            }
        }
    } else {
        Option::None
    }
}

// ---------------------------------------------------------------------------
// The writer: builds exactly the sequence above.
// ---------------------------------------------------------------------------

/// The decimal digit `d` (0 to 9) as a character.
fn digit_char_ex(d: usize) -> (c: char)
    requires
        d < 10,
    ensures
        c == digit_char(d as int),
{
    match d {
        0 => '0',
        1 => '1',
        2 => '2',
        3 => '3',
        4 => '4',
        5 => '5',
        6 => '6',
        7 => '7',
        8 => '8',
        _ => '9',
    }
}

/// The hexadecimal digit `d` (0 to 15) as a lower-case character.
fn hex_char_ex(d: u32) -> (c: char)
    requires
        d < 16,
    ensures
        c == hex_char(d as int),
{
    match d {
        0 => '0',
        1 => '1',
        2 => '2',
        3 => '3',
        4 => '4',
        5 => '5',
        6 => '6',
        7 => '7',
        8 => '8',
        9 => '9',
        10 => 'a',
        11 => 'b',
        12 => 'c',
        13 => 'd',
        14 => 'e',
        _ => 'f',
    }
}

/// Appends the characters of `s` as they stand.
fn emit_lit(out: &mut Vec<char>, s: &str)
    ensures
        final(out)@ == old(out)@ + s@,
{
    let n = s.unicode_len();
    let mut i: usize = 0;
    while i < n
        invariant
            n == s@.len(),
            i <= n,
            out@ == old(out)@ + s@.subrange(0, i as int),
        decreases n - i,
    {
        let c = s.get_char(i);
        out.push(c);
        proof {
            assert(s@.subrange(0, i + 1) =~= s@.subrange(0, i as int).push(s@[i as int]));
        }
        i = i + 1;
    }
    proof {
        assert(s@.subrange(0, n as int) =~= s@);
    }
}

/// Appends a line break and `k` spaces.
fn emit_nli(out: &mut Vec<char>, k: usize)
    ensures
        final(out)@ == old(out)@ + nli(k as nat),
{
    out.push('\n');
    let mut i: usize = 0;
    while i < k
        invariant
            i <= k,
            out@ == old(out)@ + seq!['\n'] + spaces(i as nat),
        decreases k - i,
    {
        out.push(' ');
        i = i + 1;
    }
}

/// Appends the decimal digits of `n`, which must be positive.
fn emit_digits(out: &mut Vec<char>, n: usize)
    requires
        n > 0,
    ensures
        final(out)@ == old(out)@ + dec_digits(n as nat),
    decreases n,
{
    if n >= 10 {
        emit_digits(out, n / 10);
    }
    let c = digit_char_ex(n % 10);
    out.push(c);
    proof {
        if n < 10 {
            assert(dec_digits((n / 10) as nat) =~= Seq::<char>::empty());
        }
        assert(out@ =~= old(out)@ + dec_digits(n as nat));
    }
}

/// Appends a non-negative integer as JSON renders it.
fn emit_usize(out: &mut Vec<char>, n: usize)
    ensures
        final(out)@ == old(out)@ + ser_usize(n),
{
    if n == 0 {
        out.push('0');
        proof {
            assert(out@ =~= old(out)@ + ser_usize(n));
        }
    } else {
        emit_digits(out, n);
    }
}

/// `esc_string` distributes over appending one character at the end.
proof fn lemma_esc_string_push(s: Seq<char>, c: char)
    ensures
        esc_string(s.push(c)) == esc_string(s) + esc_char(c),
    decreases s.len(),
{
    let p = s.push(c);
    if s.len() == 0 {
        assert(p[0] == c);
        assert(p.subrange(1, p.len() as int) =~= Seq::<char>::empty());
        assert(esc_string(Seq::<char>::empty()) =~= Seq::<char>::empty());
        assert(esc_string(p) =~= esc_char(c));
        assert(esc_string(s) + esc_char(c) =~= esc_char(c));
    } else {
        assert(p[0] == s[0]);
        assert(p.subrange(1, p.len() as int) =~= s.subrange(1, s.len() as int).push(c));
        lemma_esc_string_push(s.subrange(1, s.len() as int), c);
        assert(esc_string(p) =~= esc_string(s) + esc_char(c));
    }
}

/// Appends `s` as a quoted, escaped JSON string.
fn emit_string(out: &mut Vec<char>, s: &str)
    ensures
        final(out)@ == old(out)@ + ser_string(s@),
{
    out.push('"');
    let n = s.unicode_len();
    let mut i: usize = 0;
    while i < n
        invariant
            n == s@.len(),
            i <= n,
            out@ == old(out)@ + seq!['"'] + esc_string(s@.subrange(0, i as int)),
        decreases n - i,
    {
        let c = s.get_char(i);
        let ghost pre = s@.subrange(0, i as int);
        if c == '"' {
            out.push('\\');
            out.push('"');
        } else if c == '\\' {
            out.push('\\');
            out.push('\\');
        } else if (c as u32) < 0x20 {
            out.push('\\');
            out.push('u');
            out.push('0');
            out.push('0');
            let h = hex_char_ex((c as u32) / 16);
            out.push(h);
            let l = hex_char_ex((c as u32) % 16);
            out.push(l);
        } else {
            out.push(c);
        }
        proof {
            assert(out@ =~= old(out)@ + seq!['"'] + (esc_string(pre) + esc_char(s@[i as int])));
            lemma_esc_string_push(pre, s@[i as int]);
            assert(s@.subrange(0, i + 1) =~= pre.push(s@[i as int]));
        }
        i = i + 1;
    }
    out.push('"');
    proof {
        assert(s@.subrange(0, n as int) =~= s@);
        assert(out@ =~= old(out)@ + ser_string(s@));
    }
}

/// Appends a word as a quoted JSON string, escaping nothing.
fn emit_quoted(out: &mut Vec<char>, s: &str)
    ensures
        final(out)@ == old(out)@ + quoted(s@),
{
    out.push('"');
    emit_lit(out, s);
    out.push('"');
    proof {
        assert(out@ =~= old(out)@ + quoted(s@));
    }
}

/// Appends `": "`.
fn emit_colon(out: &mut Vec<char>)
    ensures
        final(out)@ == old(out)@ + colon(),
{
    out.push(':');
    out.push(' ');
    proof {
        assert(out@ =~= old(out)@ + colon());
    }
}

/// Appends the status tag as a quoted JSON string.
fn emit_status(out: &mut Vec<char>, st: &TaskStatus)
    ensures
        final(out)@ == old(out)@ + quoted(status_name(*st)),
{
    match st {
        TaskStatus::Pending => emit_quoted(out, "Pending"),
        TaskStatus::Suspended => emit_quoted(out, "Suspended"),
        TaskStatus::Completed => emit_quoted(out, "Completed"),
    }
}

/// Appends an optional timestamp: `null` or a quoted, escaped string.
fn emit_opt(out: &mut Vec<char>, o: &Option<String>)
    ensures
        final(out)@ == old(out)@ + ser_opt(opt_view(*o)),
{
    match o {
        Option::Some(s) => emit_string(out, s.as_str()),
        Option::None => emit_lit(out, "null"),
    }
}

/// Appends one task as a pretty-printed JSON object.
#[verifier::rlimit(100)]
fn emit_task(out: &mut Vec<char>, t: &Task)
    ensures
        final(out)@ == old(out)@ + ser_task(t@),
{
    out.push('{');
    emit_nli(out, 6);
    emit_quoted(out, "id");
    emit_colon(out);
    emit_usize(out, t.id);
    out.push(',');
    emit_nli(out, 6);
    emit_quoted(out, "description");
    emit_colon(out);
    emit_string(out, t.description.as_str());
    out.push(',');
    emit_nli(out, 6);
    emit_quoted(out, "status");
    emit_colon(out);
    emit_status(out, &t.status);
    out.push(',');
    emit_nli(out, 6);
    emit_quoted(out, "created_at");
    emit_colon(out);
    emit_string(out, t.created_at.as_str());
    out.push(',');
    emit_nli(out, 6);
    emit_quoted(out, "completed_at");
    emit_colon(out);
    emit_opt(out, &t.completed_at);
    emit_nli(out, 4);
    out.push('}');
    proof {
        assert(out@ =~= old(out)@ + ser_task(t@));
    }
}

/// Appends the whole task array.
fn emit_tasks(out: &mut Vec<char>, tasks: &Vec<Task>)
    ensures
        final(out)@ == old(out)@ + ser_tasks(task_views(tasks@)),
{
    let ghost ts = task_views(tasks@);
    let n = tasks.len();
    if n == 0 {
        out.push('[');
        out.push(']');
        proof {
            assert(out@ =~= old(out)@ + ser_tasks(ts));
        }
    } else {
        out.push('[');
        proof {
            assert(ts.subrange(0, n as int) =~= ts);
            assert(out@ =~= old(out)@ + seq!['[']);
        }
        let mut k: usize = 0;
        while k < n
            invariant
                n == tasks@.len(),
                n > 0,
                ts == task_views(tasks@),
                ts.len() == n,
                k <= n,
                out@ + ser_tasks_rest(ts.subrange(k as int, n as int)) == old(out)@ + seq!['[']
                    + ser_tasks_rest(ts),
            decreases n - k,
        {
            let ghost entry = out@;
            let ghost sub = ts.subrange(k as int, n as int);
            emit_nli(out, 4);
            emit_task(out, &tasks[k]);
            if k + 1 < n {
                out.push(',');
            }
            proof {
                assert(sub[0] == ts[k as int]);
                assert(sub.subrange(1, sub.len() as int) =~= ts.subrange(k + 1, n as int));
                if k + 1 < n {
                    assert(ser_tasks_rest(sub) =~= nli(4) + ser_task(ts[k as int]) + (seq![',']
                        + ser_tasks_rest(ts.subrange(k + 1, n as int))));
                    assert(out@ =~= entry + nli(4) + ser_task(ts[k as int]) + seq![',']);
                } else {
                    assert(ser_tasks_rest(ts.subrange(k + 1, n as int)) =~= Seq::<char>::empty());
                    assert(ser_tasks_rest(sub) =~= nli(4) + ser_task(ts[k as int]));
                }
                assert(out@ + ser_tasks_rest(ts.subrange(k + 1, n as int)) =~= entry
                    + ser_tasks_rest(sub));
            }
            k = k + 1;
        }
        proof {
            assert(ser_tasks_rest(ts.subrange(n as int, n as int)) =~= Seq::<char>::empty());
            assert(out@ =~= old(out)@ + seq!['['] + ser_tasks_rest(ts));
        }
        emit_nli(out, 2);
        out.push(']');
        proof {
            assert(out@ =~= old(out)@ + ser_tasks(ts));
        }
    }
}

/// The persisted form of a task list: exactly the character sequence
/// [`ser_doc`] describes, ready to be written to the backing file.
pub fn to_chars(list: &TaskList) -> (out: Vec<char>)
    ensures
        out@ == ser_doc(list@),
{
    let mut out: Vec<char> = Vec::new();
    out.push('{');
    emit_nli(&mut out, 2);
    emit_quoted(&mut out, "name");
    emit_colon(&mut out);
    emit_string(&mut out, list.name.as_str());
    out.push(',');
    emit_nli(&mut out, 2);
    emit_quoted(&mut out, "tasks");
    emit_colon(&mut out);
    emit_tasks(&mut out, &list.tasks);
    out.push(',');
    emit_nli(&mut out, 2);
    emit_quoted(&mut out, "next_id");
    emit_colon(&mut out);
    emit_usize(&mut out, list.next_id);
    emit_nli(&mut out, 0);
    out.push('}');
    proof {
        assert(out@ =~= ser_doc(list@));
    }
    out
}

// ---------------------------------------------------------------------------
// The reader: follows the mathematical parse above, step for step.
// ---------------------------------------------------------------------------

/// Relies on `String::push`: appends one character at the end.
#[verifier::external_body]
fn push_char(s: &mut String, c: char)
    ensures
        final(s)@ == old(s)@.push(c),
{
    s.push(c);
}

/// Relies on `char::from_u32`: `Some` exactly for a valid Unicode scalar
/// value (at most 0x10FFFF and not a surrogate), and the returned character
/// carries that value.
#[verifier::external_body]
fn char_from_u32(v: u32) -> (r: Option<char>)
    ensures
        r is Some <==> (v < 0xD800 || (0xDFFF < v && v <= 0x10FFFF)),
        r matches Option::Some(c) ==> c as u32 == v,
{
    char::from_u32(v)
}

/// Character-for-character text equality.
fn str_eq(a: &str, b: &str) -> (r: bool)
    ensures
        r == (a@ == b@),
{
    let na = a.unicode_len();
    let nb = b.unicode_len();
    if na != nb {
        return false;
    }
    let mut i: usize = 0;
    while i < na
        invariant
            na == a@.len(),
            na == b@.len(),
            i <= na,
            forall|j: int| 0 <= j < i ==> a@[j] == b@[j],
        decreases na - i,
    {
        if a.get_char(i) != b.get_char(i) {
            proof {
                if a@ == b@ {
                    assert(a@[i as int] == b@[i as int]);
                }
            }
            return false;
        }
        i = i + 1;
    }
    proof {
        assert(a@ =~= b@);
    }
    true
}

/// The first position at or after `i` holding a non-whitespace character.
fn skip_ws(s: &Vec<char>, i: usize) -> (r: usize)
    requires
        i <= s@.len(),
    ensures
        r == sp_skip_ws(s@, i as int),
        i <= r <= s@.len(),
    decreases s@.len() - i,
{
    if i < s.len() {
        let c = s[i];
        if c == ' ' || c == '\n' || c == '\t' || c == '\r' {
            return skip_ws(s, i + 1);
        }
    }
    i
}

/// The value of a hexadecimal digit.
fn hex_digit(c: char) -> (r: Option<u32>)
    ensures
        r matches Option::Some(v) ==> hex_val(c) == v,
        r is None ==> hex_val(c) == -1,
{
    let u = c as u32;
    if 48 <= u && u <= 57 {
        Option::Some(u - 48)
    } else if 97 <= u && u <= 102 {
        Option::Some(u - 87)
    } else if 65 <= u && u <= 70 {
        Option::Some(u - 55)
    } else {
        Option::None
    }
}

/// Four hexadecimal digits at `i`, as a number.
fn hex4(s: &Vec<char>, i: usize) -> (r: Option<u32>)
    ensures
        r == sp_hex4(s@, i as int),
{
    if s.len() >= 4 && i <= s.len() - 4 {
        let h0 = hex_digit(s[i]);
        let h1 = hex_digit(s[i + 1]);
        let h2 = hex_digit(s[i + 2]);
        let h3 = hex_digit(s[i + 3]);
        match (h0, h1, h2, h3) {
            (Option::Some(a), Option::Some(b), Option::Some(c), Option::Some(d)) => Option::Some(
                a * 4096 + b * 256 + c * 16 + d,
            ),
            _ => Option::None,
        }
    } else {
        Option::None
    }
}

/// A run of digits accumulated into `acc`.
fn num_loop(s: &Vec<char>, i: usize, acc: usize) -> (r: Option<(usize, usize)>)
    requires
        i <= s@.len(),
    ensures
        r matches Option::Some(p) ==> sp_num_loop(s@, i as int, acc) == Option::Some(
            (p.0, p.1 as int),
        ) && i <= p.1 <= s@.len(),
        r is None ==> sp_num_loop(s@, i as int, acc) is None,
    decreases s@.len() - i,
{
    if i < s.len() {
        let u = s[i] as u32;
        if 48 <= u && u <= 57 {
            let d = (u - 48) as usize;
            match acc.checked_mul(10) {
                Option::Some(m) => match m.checked_add(d) {
                    Option::Some(acc2) => {
                        return num_loop(s, i + 1, acc2);
                    },
                    Option::None => {
                        return Option::None;
                    },
                },
                Option::None => {
                    return Option::None;
                },
            }
        }
    }
    Option::Some((acc, i))
}

/// A non-negative integer at `i`.
fn parse_num(s: &Vec<char>, i: usize) -> (r: Option<(usize, usize)>)
    requires
        i <= s@.len(),
    ensures
        r matches Option::Some(p) ==> sp_parse_num(s@, i as int) == Option::Some(
            (p.0, p.1 as int),
        ) && i <= p.1 <= s@.len(),
        r is None ==> sp_parse_num(s@, i as int) is None,
{
    if i < s.len() {
        let u = s[i] as u32;
        if 48 <= u && u <= 57 {
            return num_loop(s, i, 0);
        }
    }
    Option::None
}

/// The body of a quoted string, from just past the opening quote.
fn str_body(s: &Vec<char>, i: usize, acc: String) -> (r: Option<(String, usize)>)
    requires
        i <= s@.len(),
    ensures
        r matches Option::Some(p) ==> sp_str_body(s@, i as int, acc@) == Option::Some(
            (p.0@, p.1 as int),
        ) && i < p.1 <= s@.len(),
        r is None ==> sp_str_body(s@, i as int, acc@) is None,
    decreases s@.len() - i,
{
    if i >= s.len() {
        return Option::None;
    }
    let c = s[i];
    if c == '"' {
        return Option::Some((acc, i + 1));
    }
    let mut acc = acc;
    if c == '\\' {
        if i + 1 >= s.len() {
            return Option::None;
        }
        let e = s[i + 1];
        if e == '"' {
            push_char(&mut acc, '"');
            str_body(s, i + 2, acc)
        } else if e == '\\' {
            push_char(&mut acc, '\\');
            str_body(s, i + 2, acc)
        } else if e == '/' {
            push_char(&mut acc, '/');
            str_body(s, i + 2, acc)
        } else if e == 'b' {
            push_char(&mut acc, '\u{0008}');
            str_body(s, i + 2, acc)
        } else if e == 'f' {
            push_char(&mut acc, '\u{000C}');
            str_body(s, i + 2, acc)
        } else if e == 'n' {
            push_char(&mut acc, '\n');
            str_body(s, i + 2, acc)
        } else if e == 'r' {
            push_char(&mut acc, '\r');
            str_body(s, i + 2, acc)
        } else if e == 't' {
            push_char(&mut acc, '\t');
            str_body(s, i + 2, acc)
        } else if e == 'u' {
            match hex4(s, i + 2) {
                Option::None => Option::None,
                Option::Some(v) => {
                    if v < 0xD800 || 0xDFFF < v {
                        match char_from_u32(v) {
                            Option::Some(ch) => {
                                proof {
                                    vstd::utf8::char_u32_cast(ch, v);
                                }
                                push_char(&mut acc, ch);
                                str_body(s, i + 6, acc)
                            },
                            Option::None => {
                                proof {
                                    assert(v <= 0xFFFF);
                                    assert(false);
                                }
                                vstd::pervasive::unreached()
                            },
                        }
                    } else if v < 0xDC00 {
                        if s.len() >= 12 && i <= s.len() - 12 && s[i + 6] == '\\' && s[i + 7]
                            == 'u' {
                            match hex4(s, i + 8) {
                                Option::None => Option::None,
                                Option::Some(lo) => {
                                    if 0xDC00 <= lo && lo <= 0xDFFF {
                                        let w: u32 = 0x10000 + (v - 0xD800) * 0x400 + (lo
                                            - 0xDC00);
                                        match char_from_u32(w) {
                                            Option::Some(ch) => {
                                                proof {
                                                    vstd::utf8::char_u32_cast(ch, w);
                                                }
                                                push_char(&mut acc, ch);
                                                str_body(s, i + 12, acc)
                                            },
                                            Option::None => {
                                                proof {
                                                    assert(false);
                                                }
                                                vstd::pervasive::unreached()
                                            },
                                        }
                                    } else {
                                        Option::None
                                    }
                                },
                            }
                        } else {
                            Option::None
                        }
                    } else {
                        Option::None
                    }
                },
            }
        } else {
            Option::None
        }
    } else if (c as u32) < 0x20 {
        Option::None
    } else {
        push_char(&mut acc, c);
        str_body(s, i + 1, acc)
    }
}

/// A quoted string at `i`.
fn parse_str(s: &Vec<char>, i: usize) -> (r: Option<(String, usize)>)
    requires
        i <= s@.len(),
    ensures
        r matches Option::Some(p) ==> sp_parse_str(s@, i as int) == Option::Some(
            (p.0@, p.1 as int),
        ) && i < p.1 <= s@.len(),
        r is None ==> sp_parse_str(s@, i as int) is None,
{
    if i < s.len() && s[i] == '"' {
        str_body(s, i + 1, String::new())
    } else {
        Option::None
    }
}

/// The status a parsed tag denotes, if any.
fn status_lookup(w: &String) -> (r: Option<TaskStatus>)
    ensures
        r == status_of_name(w@),
{
    if str_eq(w.as_str(), "Pending") {
        Option::Some(TaskStatus::Pending)
    } else if str_eq(w.as_str(), "Suspended") {
        Option::Some(TaskStatus::Suspended)
    } else if str_eq(w.as_str(), "Completed") {
        Option::Some(TaskStatus::Completed)
    } else {
        Option::None
    }
}

/// The fields of a task object gathered so far, as the reader holds them.
struct TaskAccEx {
    id: Option<usize>,
    description: Option<String>,
    status: Option<TaskStatus>,
    created_at: Option<String>,
    completed_seen: bool,
    completed_at: Option<String>,
}

/// The mathematical value of a [`TaskAccEx`].
spec fn tacc_view(a: TaskAccEx) -> TaskAcc {
    TaskAcc {
        id: a.id,
        description: opt_view(a.description),
        status: a.status,
        created_at: opt_view(a.created_at),
        completed_seen: a.completed_seen,
        completed_at: opt_view(a.completed_at),
    }
}

/// One `"key": value` pair of a task object, then the rest of the object.
fn task_fields(s: &Vec<char>, i: usize, a: TaskAccEx) -> (r: Option<(TaskAccEx, usize)>)
    requires
        i <= s@.len(),
    ensures
        r matches Option::Some(p) ==> sp_task_fields(s@, i as int, tacc_view(a)) == Option::Some(
            (tacc_view(p.0), p.1 as int),
        ) && i < p.1 <= s@.len(),
        r is None ==> sp_task_fields(s@, i as int, tacc_view(a)) is None,
    decreases task_unseen(tacc_view(a)), 0int,
{
    match parse_str(s, i) {
        Option::None => Option::None,
        Option::Some((key, j)) => {
            let j2 = skip_ws(s, j);
            if !(j2 < s.len()) {
                return Option::None;
            }
            if s[j2] != ':' {
                return Option::None;
            }
            let j3 = skip_ws(s, j2 + 1);
            if str_eq(key.as_str(), "id") {
                if a.id.is_some() {
                    Option::None
                } else {
                    match parse_num(s, j3) {
                        Option::None => Option::None,
                        Option::Some((v, j4)) => task_after(
                            s,
                            j4,
                            (TaskAccEx { id: Option::Some(v), ..a }),
                        ),
                    }
                }
            } else if str_eq(key.as_str(), "description") {
                if a.description.is_some() {
                    Option::None
                } else {
                    match parse_str(s, j3) {
                        Option::None => Option::None,
                        Option::Some((w, j4)) => task_after(
                            s,
                            j4,
                            (TaskAccEx { description: Option::Some(w), ..a }),
                        ),
                    }
                }
            } else if str_eq(key.as_str(), "status") {
                if a.status.is_some() {
                    Option::None
                } else {
                    match parse_str(s, j3) {
                        Option::None => Option::None,
                        Option::Some((w, j4)) => match status_lookup(&w) {
                            Option::None => Option::None,
                            Option::Some(st) => task_after(
                                s,
                                j4,
                                (TaskAccEx { status: Option::Some(st), ..a }),
                            ),
                        },
                    }
                }
            } else if str_eq(key.as_str(), "created_at") {
                if a.created_at.is_some() {
                    Option::None
                } else {
                    match parse_str(s, j3) {
                        Option::None => Option::None,
                        Option::Some((w, j4)) => task_after(
                            s,
                            j4,
                            (TaskAccEx { created_at: Option::Some(w), ..a }),
                        ),
                    }
                }
            } else if str_eq(key.as_str(), "completed_at") {
                if a.completed_seen {
                    Option::None
                } else {
                    if j3 < s.len() && s[j3] == 'n' {
                        if s.len() - j3 >= 4 && s[j3 + 1] == 'u' && s[j3 + 2] == 'l' && s[j3 + 3]
                            == 'l' {
                            task_after(
                                s,
                                j3 + 4,
                                (TaskAccEx {
                                    completed_seen: true,
                                    completed_at: Option::None,
                                    ..a
                                }),
                            )
                        } else {
                            Option::None
                        }
                    } else {
                        match parse_str(s, j3) {
                            Option::None => Option::None,
                            Option::Some((w, j4)) => task_after(
                                s,
                                j4,
                                (TaskAccEx {
                                    completed_seen: true,
                                    completed_at: Option::Some(w),
                                    ..a
                                }),
                            ),
                        }
                    }
                }
            } else {
                Option::None
            }
        },
    }
}

/// After a task field's value: a comma or the closing brace.
fn task_after(s: &Vec<char>, i: usize, a: TaskAccEx) -> (r: Option<(TaskAccEx, usize)>)
    requires
        i <= s@.len(),
    ensures
        r matches Option::Some(p) ==> sp_task_after(s@, i as int, tacc_view(a)) == Option::Some(
            (tacc_view(p.0), p.1 as int),
        ) && i < p.1 <= s@.len(),
        r is None ==> sp_task_after(s@, i as int, tacc_view(a)) is None,
    decreases task_unseen(tacc_view(a)), 1int,
{
    let k = skip_ws(s, i);
    if k < s.len() && s[k] == ',' {
        if a.id.is_some() && a.description.is_some() && a.status.is_some() && a.created_at.is_some()
            && a.completed_seen {
            Option::None
        } else {
            let k2 = skip_ws(s, k + 1);
            task_fields(s, k2, a)
        }
    } else if k < s.len() && s[k] == '}' {
        Option::Some((a, k + 1))
    } else {
        Option::None
    }
}

/// A task object at `i`.
fn parse_task(s: &Vec<char>, i: usize) -> (r: Option<(Task, usize)>)
    requires
        i <= s@.len(),
    ensures
        r matches Option::Some(p) ==> sp_task(s@, i as int) == Option::Some((p.0@, p.1 as int))
            && i < p.1 <= s@.len(),
        r is None ==> sp_task(s@, i as int) is None,
{
    if i < s.len() && s[i] == '{' {
        let j = skip_ws(s, i + 1);
        if j < s.len() && s[j] == '}' {
            return Option::None;
        }
        let a0 = TaskAccEx {
            id: Option::None,
            description: Option::None,
            status: Option::None,
            created_at: Option::None,
            completed_seen: false,
            completed_at: Option::None,
        };
        match task_fields(s, j, a0) {
            Option::None => Option::None,
            Option::Some((a, j2)) => {
                let TaskAccEx { id, description, status, created_at, completed_seen: _, completed_at } = a;
                match (id, description, status, created_at) {
                    (
                        Option::Some(idv),
                        Option::Some(d),
                        Option::Some(st),
                        Option::Some(ca),
                    ) => {
                        let t = Task {
                            id: idv,
                            description: d,
                            status: st,
                            created_at: ca,
                            completed_at,
                        };
                        Option::Some((t, j2))
                    },
                    _ => Option::None,
                }
            },
        }
    } else {
        Option::None
    }
}

/// The elements of a non-empty task array.
fn tasks_items(s: &Vec<char>, i: usize, acc: Vec<Task>) -> (r: Option<(Vec<Task>, usize)>)
    requires
        i <= s@.len(),
    ensures
        r matches Option::Some(p) ==> sp_tasks_items(s@, i as int, task_views(acc@))
            == Option::Some((task_views(p.0@), p.1 as int)) && i < p.1 <= s@.len(),
        r is None ==> sp_tasks_items(s@, i as int, task_views(acc@)) is None,
    decreases s@.len() - i,
{
    let ghost accm = task_views(acc@);
    match parse_task(s, i) {
        Option::None => Option::None,
        Option::Some((t, j)) => {
            let k = skip_ws(s, j);
            let mut acc = acc;
            if k < s.len() && s[k] == ',' {
                let k2 = skip_ws(s, k + 1);
                let ghost tm = t@;
                acc.push(t);
                proof {
                    assert(task_views(acc@) =~= accm.push(tm));
                }
                tasks_items(s, k2, acc)
            } else if k < s.len() && s[k] == ']' {
                let ghost tm = t@;
                acc.push(t);
                proof {
                    assert(task_views(acc@) =~= accm.push(tm));
                }
                Option::Some((acc, k + 1))
            } else {
                Option::None
            }
        },
    }
}

/// A task array at `i`.
fn parse_tasks(s: &Vec<char>, i: usize) -> (r: Option<(Vec<Task>, usize)>)
    requires
        i <= s@.len(),
    ensures
        r matches Option::Some(p) ==> sp_tasks(s@, i as int) == Option::Some(
            (task_views(p.0@), p.1 as int),
        ) && i < p.1 <= s@.len(),
        r is None ==> sp_tasks(s@, i as int) is None,
{
    if i < s.len() && s[i] == '[' {
        let j = skip_ws(s, i + 1);
        if j < s.len() && s[j] == ']' {
            let out: Vec<Task> = Vec::new();
            proof {
                assert(task_views(out@) =~= Seq::<TaskM>::empty());
            }
            Option::Some((out, j + 1))
        } else {
            let out: Vec<Task> = Vec::new();
            proof {
                assert(task_views(out@) =~= Seq::<TaskM>::empty());
            }
            tasks_items(s, j, out)
        }
    } else {
        Option::None
    }
}

/// The fields of the top-level object, as the reader holds them.
struct DocAccEx {
    name: Option<String>,
    tasks: Option<Vec<Task>>,
    next_id: Option<usize>,
}

/// The mathematical value of a [`DocAccEx`].
spec fn dacc_view(a: DocAccEx) -> DocAcc {
    DocAcc {
        name: match a.name {
            Option::Some(s) => Option::Some(s@),
            Option::None => Option::None,
        },
        tasks: match a.tasks {
            Option::Some(ts) => Option::Some(task_views(ts@)),
            Option::None => Option::None,
        },
        next_id: a.next_id,
    }
}

/// One `"key": value` pair of the top-level object, then the rest of it.
#[verifier::rlimit(100)]
fn doc_fields(s: &Vec<char>, i: usize, a: DocAccEx) -> (r: Option<(DocAccEx, usize)>)
    requires
        i <= s@.len(),
    ensures
        r matches Option::Some(p) ==> sp_doc_fields(s@, i as int, dacc_view(a)) == Option::Some(
            (dacc_view(p.0), p.1 as int),
        ) && i < p.1 <= s@.len(),
        r is None ==> sp_doc_fields(s@, i as int, dacc_view(a)) is None,
    decreases doc_unseen(dacc_view(a)), 0int,
{
    match parse_str(s, i) {
        Option::None => Option::None,
        Option::Some((key, j)) => {
            let j2 = skip_ws(s, j);
            if !(j2 < s.len()) {
                return Option::None;
            }
            if s[j2] != ':' {
                return Option::None;
            }
            let j3 = skip_ws(s, j2 + 1);
            if str_eq(key.as_str(), "name") {
                if a.name.is_some() {
                    Option::None
                } else {
                    match parse_str(s, j3) {
                        Option::None => Option::None,
                        Option::Some((w, j4)) => doc_after(
                            s,
                            j4,
                            (DocAccEx { name: Option::Some(w), ..a }),
                        ),
                    }
                }
            } else if str_eq(key.as_str(), "tasks") {
                if a.tasks.is_some() {
                    Option::None
                } else {
                    match parse_tasks(s, j3) {
                        Option::None => Option::None,
                        Option::Some((ts, j4)) => doc_after(
                            s,
                            j4,
                            (DocAccEx { tasks: Option::Some(ts), ..a }),
                        ),
                    }
                }
            } else if str_eq(key.as_str(), "next_id") {
                if a.next_id.is_some() {
                    Option::None
                } else {
                    match parse_num(s, j3) {
                        Option::None => Option::None,
                        Option::Some((v, j4)) => doc_after(
                            s,
                            j4,
                            (DocAccEx { next_id: Option::Some(v), ..a }),
                        ),
                    }
                }
            } else {
                Option::None
            }
        },
    }
}

/// After a top-level field's value: a comma or the closing brace.
fn doc_after(s: &Vec<char>, i: usize, a: DocAccEx) -> (r: Option<(DocAccEx, usize)>)
    requires
        i <= s@.len(),
    ensures
        r matches Option::Some(p) ==> sp_doc_after(s@, i as int, dacc_view(a)) == Option::Some(
            (dacc_view(p.0), p.1 as int),
        ) && i < p.1 <= s@.len(),
        r is None ==> sp_doc_after(s@, i as int, dacc_view(a)) is None,
    decreases doc_unseen(dacc_view(a)), 1int,
{
    let k = skip_ws(s, i);
    if k < s.len() && s[k] == ',' {
        if a.name.is_some() && a.tasks.is_some() && a.next_id.is_some() {
            Option::None
        } else {
            let k2 = skip_ws(s, k + 1);
            doc_fields(s, k2, a)
        }
    } else if k < s.len() && s[k] == '}' {
        Option::Some((a, k + 1))
    } else {
        Option::None
    }
}

/// Reconstructs a task list from the characters of a persisted document.
/// Succeeds exactly when the characters form a document of the expected
/// shape ([`sp_doc`]); anything else is a decode failure, reported as a
/// `JsonError` and never a panic or a silently fresh list.
pub fn from_chars(s: &Vec<char>) -> (r: Result<TaskList, TodoError>)
    ensures
        r is Ok <==> sp_doc(s@) is Some,
        sp_doc(s@) matches Option::Some(m) ==> (r matches Result::Ok(l) && l@ == m),
        r matches Result::Err(e) ==> e is JsonError,
{
    let i = skip_ws(s, 0);
    if i < s.len() && s[i] == '{' {
        let j = skip_ws(s, i + 1);
        if j < s.len() && s[j] == '}' {
            return Result::Err(TodoError::JsonError("missing required fields".to_owned()));
        }
        let a0 = DocAccEx { name: Option::None, tasks: Option::None, next_id: Option::None };
        match doc_fields(s, j, a0) {
            Option::None => Result::Err(TodoError::JsonError("malformed document".to_owned())),
            Option::Some((a, j2)) => {
                let j3 = skip_ws(s, j2);
                if j3 != s.len() {
                    return Result::Err(
                        TodoError::JsonError("unexpected trailing content".to_owned()),
                    );
                }
                let DocAccEx { name, tasks, next_id } = a;
                match (name, tasks, next_id) {
                    (Option::Some(n), Option::Some(ts), Option::Some(ni)) => Result::Ok(
                        (TaskList { name: n, tasks: ts, next_id: ni }),
                    ),
                    _ => Result::Err(
                        TodoError::JsonError("missing required fields".to_owned()),
                    ),
                }
            },
        }
    } else {
        Result::Err(TodoError::JsonError("expected a JSON object".to_owned()))
    }
}

/// The store's load decision. A missing backing file (`None`) yields a fresh
/// empty list with the allocator at 1 — a valid outcome, not an error —
/// while existing content must decode or the whole load fails.
pub fn load_or_default(content: Option<&Vec<char>>) -> (r: Result<TaskList, TodoError>)
    ensures
        content is None ==> (r matches Result::Ok(l) && l.tasks@.len() == 0 && l.next_id == 1
            && l.name@ == "Task List"@ && l.wf()),
        content matches Option::Some(c) ==> {
            &&& (r is Ok <==> sp_doc(c@) is Some)
            &&& (sp_doc(c@) matches Option::Some(m) ==> (r matches Result::Ok(l) && l@ == m))
            &&& (r matches Result::Err(e) ==> e is JsonError)
        },
{
    match content {
        Option::None => Result::Ok(TaskList::new()),
        Option::Some(c) => from_chars(c),
    }
}

} // verus!
