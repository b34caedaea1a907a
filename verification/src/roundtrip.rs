//! Law: the reader inverts the writer. For every task list value, parsing
//! the document the writer produces yields exactly that value back — every
//! field of every task, the list's name and the allocator state survive a
//! save and a load.

use vstd::prelude::*;

use crate::codec::{
    colon, dec_digits, digit_char, digit_val, esc_char, esc_string, hex_char, hex_val, is_digit,
    is_hex, is_ws, nli, quoted, ser_doc, ser_opt, ser_string, ser_task, ser_tasks, ser_tasks_rest,
    ser_usize, sp_doc, sp_doc_after, sp_doc_fields, sp_hex4, sp_num_loop, sp_parse_num,
    sp_parse_str, sp_skip_ws, sp_str_body, sp_task, sp_task_after, sp_task_fields, sp_tasks,
    sp_tasks_items, spaces, status_name, status_of_name, task_finish, task_unseen, doc_finish,
    doc_unseen, DocAcc, TaskAcc,
};
use crate::task::{TaskM, TaskStatus};
use crate::task_list::TaskListM;

verus! {

/// `t` stands letter for letter inside `s`, starting at `i`.
pub open spec fn holds_at(s: Seq<char>, i: int, t: Seq<char>) -> bool {
    0 <= i && i + t.len() <= s.len() && s.subrange(i, i + t.len()) == t
}

/// Splitting a contained concatenation at its seam.
proof fn lemma_holds_split(s: Seq<char>, i: int, a: Seq<char>, b: Seq<char>)
    requires
        holds_at(s, i, a + b),
    ensures
        holds_at(s, i, a),
        holds_at(s, i + a.len(), b),
{
    assert(s.subrange(i, i + a.len()) =~= a) by {
        assert forall|j: int| 0 <= j < a.len() implies s.subrange(i, i + a.len())[j] == a[j] by {
            assert(s.subrange(i, i + (a + b).len())[j] == (a + b)[j]);
        }
    }
    assert(s.subrange(i + a.len(), i + a.len() + b.len()) =~= b) by {
        assert forall|j: int| 0 <= j < b.len() implies s.subrange(
            i + a.len(),
            i + a.len() + b.len(),
        )[j] == b[j] by {
            assert(s.subrange(i, i + (a + b).len())[a.len() + j] == (a + b)[a.len() + j]);
        }
    }
}

/// One character of a contained piece.
proof fn lemma_holds_index(s: Seq<char>, i: int, t: Seq<char>, j: int)
    requires
        holds_at(s, i, t),
        0 <= j < t.len(),
    ensures
        s[i + j] == t[j],
{
    assert(s.subrange(i, i + t.len())[j] == s[i + j]);
}

/// `spaces(k)` is `k` whitespace characters.
proof fn lemma_spaces(k: nat)
    ensures
        spaces(k).len() == k,
        forall|j: int| 0 <= j < k ==> is_ws(#[trigger] spaces(k)[j]),
    decreases k,
{
    if k > 0 {
        lemma_spaces((k - 1) as nat);
    }
}

/// `nli(k)` is `k + 1` whitespace characters.
proof fn lemma_nli(k: nat)
    ensures
        nli(k).len() == k + 1,
        forall|j: int| 0 <= j < k + 1 ==> is_ws(#[trigger] nli(k)[j]),
{
    lemma_spaces(k);
}

/// Skipping whitespace over a run of it lands exactly on the first
/// non-whitespace position.
proof fn lemma_skip_ws_run(s: Seq<char>, i: int, j: int)
    requires
        0 <= i <= j <= s.len(),
        forall|m: int| i <= m < j ==> is_ws(#[trigger] s[m]),
        j == s.len() || !is_ws(s[j]),
    ensures
        sp_skip_ws(s, i) == j,
    decreases j - i,
{
    if i < j {
        lemma_skip_ws_run(s, i + 1, j);
    }
}

/// Skipping whitespace over a contained whitespace piece followed by a
/// non-whitespace character.
proof fn lemma_skip_ws_piece(s: Seq<char>, i: int, w: Seq<char>)
    requires
        holds_at(s, i, w),
        forall|j: int| 0 <= j < w.len() ==> is_ws(#[trigger] w[j]),
        i + w.len() < s.len(),
        !is_ws(s[i + w.len()]),
    ensures
        sp_skip_ws(s, i) == i + w.len(),
{
    assert forall|m: int| i <= m < i + w.len() implies is_ws(#[trigger] s[m]) by {
        lemma_holds_index(s, i, w, m - i);
    }
    lemma_skip_ws_run(s, i, i + w.len());
}

/// Digit characters are digits carrying their value.
proof fn lemma_digit_char(d: int)
    requires
        0 <= d < 10,
    ensures
        is_digit(digit_char(d)),
        digit_val(digit_char(d)) == d,
{
}

/// Hexadecimal digit characters are hexadecimal digits carrying their value.
proof fn lemma_hex_char(d: int)
    requires
        0 <= d < 16,
    ensures
        is_hex(hex_char(d)),
        hex_val(hex_char(d)) == d,
{
}

/// Every character of `dec_digits(n)` is a digit.
proof fn lemma_dec_digits_are_digits(n: nat)
    ensures
        forall|j: int| 0 <= j < dec_digits(n).len() ==> is_digit(#[trigger] dec_digits(n)[j]),
        n > 0 ==> dec_digits(n).len() >= 1,
    decreases n,
{
    if n > 0 {
        lemma_dec_digits_are_digits(n / 10);
        lemma_digit_char((n % 10) as int);
        assert forall|j: int| 0 <= j < dec_digits(n).len() implies is_digit(
            #[trigger] dec_digits(n)[j],
        ) by {
            if j < dec_digits(n / 10).len() {
                assert(dec_digits(n)[j] == dec_digits(n / 10)[j]);
            } else {
                assert(dec_digits(n)[j] == digit_char((n % 10) as int));
            }
        }
    }
}

/// The number a run of digits denotes when read onto `acc`.
pub open spec fn fold_digits(acc: int, d: Seq<char>) -> int
    decreases d.len(),
{
    if d.len() == 0 {
        acc
    } else {
        fold_digits(acc * 10 + digit_val(d[0]), d.subrange(1, d.len() as int))
    }
}

/// Reading digits never lowers the value.
proof fn lemma_fold_ge(acc: int, d: Seq<char>)
    requires
        0 <= acc,
        forall|j: int| 0 <= j < d.len() ==> is_digit(#[trigger] d[j]),
    ensures
        fold_digits(acc, d) >= acc,
        fold_digits(acc, d) >= 0,
    decreases d.len(),
{
    if d.len() > 0 {
        assert(is_digit(d[0]));
        let rest = d.subrange(1, d.len() as int);
        assert(forall|j: int| 0 <= j < rest.len() ==> is_digit(#[trigger] rest[j]));
        lemma_fold_ge(acc * 10 + digit_val(d[0]), rest);
    }
}

/// Reading one more digit at the end multiplies by ten and adds it.
proof fn lemma_fold_snoc(acc: int, d: Seq<char>, c: char)
    ensures
        fold_digits(acc, d.push(c)) == fold_digits(acc, d) * 10 + digit_val(c),
    decreases d.len(),
{
    let p = d.push(c);
    assert(p.len() == d.len() + 1);
    assert(fold_digits(acc, p) == fold_digits(
        acc * 10 + digit_val(p[0]),
        p.subrange(1, p.len() as int),
    ));
    if d.len() == 0 {
        assert(p[0] == c);
        assert(p.subrange(1, p.len() as int) =~= Seq::<char>::empty());
        assert(fold_digits(acc * 10 + digit_val(c), Seq::<char>::empty()) == acc * 10 + digit_val(
            c,
        ));
    } else {
        assert(p[0] == d[0]);
        assert(p.subrange(1, p.len() as int) =~= d.subrange(1, d.len() as int).push(c));
        lemma_fold_snoc(acc * 10 + digit_val(d[0]), d.subrange(1, d.len() as int), c);
    }
}

/// The digits the writer produces denote the number it was given.
proof fn lemma_fold_dec(n: nat)
    ensures
        fold_digits(0, dec_digits(n)) == n,
    decreases n,
{
    if n > 0 {
        lemma_fold_dec(n / 10);
        lemma_digit_char((n % 10) as int);
        assert(dec_digits(n) =~= dec_digits(n / 10).push(digit_char((n % 10) as int)));
        lemma_fold_snoc(0, dec_digits(n / 10), digit_char((n % 10) as int));
    }
}

/// The digit loop consumes a contained digit run exactly, stopping at the
/// first non-digit, and reads the denoted value.
proof fn lemma_num_loop(s: Seq<char>, i: int, acc: usize, d: Seq<char>)
    requires
        holds_at(s, i, d),
        forall|j: int| 0 <= j < d.len() ==> is_digit(#[trigger] d[j]),
        i + d.len() == s.len() || !is_digit(s[i + d.len()]),
        fold_digits(acc as int, d) <= usize::MAX,
    ensures
        sp_num_loop(s, i, acc) == Option::Some(
            (fold_digits(acc as int, d) as usize, i + d.len()),
        ),
    decreases d.len(),
{
    if d.len() == 0 {
        assert(sp_num_loop(s, i, acc) == Option::Some((acc, i)));
    } else {
        lemma_holds_index(s, i, d, 0);
        assert(s[i] == d[0]);
        assert(is_digit(s[i]));
        let rest = d.subrange(1, d.len() as int);
        assert(forall|j: int| 0 <= j < rest.len() ==> is_digit(#[trigger] rest[j]));
        let acc2 = acc * 10 + digit_val(d[0]);
        lemma_fold_ge(acc2, rest);
        assert(fold_digits(acc as int, d) == fold_digits(acc2, rest));
        assert(acc2 <= usize::MAX);
        assert(holds_at(s, i + 1, rest)) by {
            assert(s.subrange(i + 1, i + 1 + rest.len()) =~= rest) by {
                assert forall|j: int| 0 <= j < rest.len() implies s.subrange(
                    i + 1,
                    i + 1 + rest.len(),
                )[j] == rest[j] by {
                    lemma_holds_index(s, i, d, j + 1);
                }
            }
        }
        lemma_num_loop(s, i + 1, acc2 as usize, rest);
    }
}

/// Parsing a number over the writer's rendering of `n`, followed by a
/// non-digit, yields `n` and stops right after its digits.
proof fn lemma_parse_num_ser(s: Seq<char>, i: int, n: usize)
    requires
        holds_at(s, i, ser_usize(n)),
        i + ser_usize(n).len() == s.len() || !is_digit(s[i + ser_usize(n).len()]),
    ensures
        sp_parse_num(s, i) == Option::Some((n, i + ser_usize(n).len())),
{
    let d = ser_usize(n);
    if n == 0 {
        assert(d =~= seq!['0']);
        assert(is_digit('0') && digit_val('0') == 0);
        assert(forall|j: int| 0 <= j < d.len() ==> is_digit(#[trigger] d[j]));
        assert(fold_digits(0, d) == fold_digits(0, d.subrange(1, 1)));
        assert(d.subrange(1, 1) =~= Seq::<char>::empty());
        assert(fold_digits(0, d) == 0);
    } else {
        lemma_dec_digits_are_digits(n as nat);
        lemma_fold_dec(n as nat);
    }
    lemma_holds_index(s, i, d, 0);
    lemma_num_loop(s, i, 0, d);
}

/// No character of `w` needs escaping in a JSON string.
pub open spec fn no_escapes(w: Seq<char>) -> bool {
    forall|j: int|
        0 <= j < w.len() ==> (#[trigger] w[j]) != '"' && w[j] != '\\' && (w[j] as u32) >= 0x20
}

/// Escaping changes nothing in a text with nothing to escape.
proof fn lemma_esc_clean(w: Seq<char>)
    requires
        no_escapes(w),
    ensures
        esc_string(w) == w,
    decreases w.len(),
{
    if w.len() > 0 {
        let w2 = w.subrange(1, w.len() as int);
        assert(no_escapes(w2));
        lemma_esc_clean(w2);
        assert(esc_char(w[0]) == seq![w[0]]);
        assert(esc_string(w) =~= w);
    }
}

/// Reading a string body over the escaped form of `w`, up to a closing
/// quote, recovers `w` exactly.
proof fn lemma_str_body(s: Seq<char>, i: int, w: Seq<char>, acc: Seq<char>)
    requires
        holds_at(s, i, esc_string(w)),
        i + esc_string(w).len() < s.len(),
        s[i + esc_string(w).len()] == '"',
    ensures
        sp_str_body(s, i, acc) == Option::Some((acc + w, i + esc_string(w).len() + 1)),
    decreases w.len(),
{
    if w.len() == 0 {
        assert(esc_string(w).len() == 0);
        assert(acc + w =~= acc);
    } else {
        let c = w[0];
        let w2 = w.subrange(1, w.len() as int);
        let e0 = esc_char(c);
        assert(esc_string(w) == e0 + esc_string(w2));
        lemma_holds_split(s, i, e0, esc_string(w2));
        let i2 = i + e0.len();
        if c == '"' || c == '\\' {
            lemma_holds_index(s, i, e0, 0);
            lemma_holds_index(s, i, e0, 1);
            assert(s[i] == '\\' && s[i + 1] == c);
            lemma_str_body(s, i2, w2, acc.push(c));
            assert(acc.push(c) + w2 =~= acc + w);
        } else if (c as u32) < 0x20 {
            let hi = (c as u32 / 16) as int;
            let lo = (c as u32 % 16) as int;
            lemma_holds_index(s, i, e0, 0);
            lemma_holds_index(s, i, e0, 1);
            lemma_holds_index(s, i, e0, 2);
            lemma_holds_index(s, i, e0, 3);
            lemma_holds_index(s, i, e0, 4);
            lemma_holds_index(s, i, e0, 5);
            assert(s[i] == '\\' && s[i + 1] == 'u' && s[i + 2] == '0' && s[i + 3] == '0');
            assert(s[i + 4] == hex_char(hi) && s[i + 5] == hex_char(lo));
            lemma_hex_char(hi);
            lemma_hex_char(lo);
            assert(hex_val('0') == 0 && is_hex('0'));
            let v = sp_hex4(s, i + 2).unwrap();
            assert(sp_hex4(s, i + 2) is Some);
            assert(v == hi * 16 + lo);
            assert(v == c as u32);
            vstd::utf8::char_u32_cast(c, v);
            assert((v as char) == c);
            assert(v < 0xD800);
            lemma_str_body(s, i2, w2, acc.push(c));
            assert(acc.push(c) + w2 =~= acc + w);
        } else {
            lemma_holds_index(s, i, e0, 0);
            assert(s[i] == c);
            lemma_str_body(s, i + 1, w2, acc.push(c));
            assert(acc.push(c) + w2 =~= acc + w);
        }
    }
}

/// Parsing a string over the writer's quoted, escaped form of `w` recovers
/// `w` exactly and stops right after the closing quote.
proof fn lemma_parse_str_ser(s: Seq<char>, i: int, w: Seq<char>)
    requires
        holds_at(s, i, ser_string(w)),
    ensures
        sp_parse_str(s, i) == Option::Some((w, i + ser_string(w).len())),
{
    lemma_holds_split(s, i, seq!['"'] + esc_string(w), seq!['"']);
    lemma_holds_split(s, i, seq!['"'], esc_string(w));
    lemma_holds_index(s, i, seq!['"'], 0);
    lemma_holds_index(s, i + 1 + esc_string(w).len(), seq!['"'], 0);
    assert(s[i] == '"');
    assert(s[i + 1 + esc_string(w).len()] == '"');
    lemma_str_body(s, i + 1, w, Seq::empty());
    assert(Seq::<char>::empty() + w =~= w);
}

/// Parsing a string over a quoted word with nothing to escape recovers the
/// word.
proof fn lemma_parse_str_quoted(s: Seq<char>, i: int, k: Seq<char>)
    requires
        holds_at(s, i, quoted(k)),
        no_escapes(k),
    ensures
        sp_parse_str(s, i) == Option::Some((k, i + k.len() + 2)),
{
    lemma_esc_clean(k);
    assert(quoted(k) == ser_string(k));
    lemma_parse_str_ser(s, i, k);
}

/// A key, its colon and the surrounding separators, as the writer lays them
/// out: the parse lands exactly on the first character of the value.
proof fn lemma_key_colon(s: Seq<char>, k1: int, key: Seq<char>)
    requires
        holds_at(s, k1, quoted(key)),
        no_escapes(key),
        holds_at(s, k1 + key.len() + 2, colon()),
        k1 + key.len() + 4 < s.len(),
        !is_ws(s[k1 + key.len() + 4]),
    ensures
        sp_parse_str(s, k1) == Option::Some((key, k1 + key.len() + 2)),
        sp_skip_ws(s, k1 + key.len() + 2) == k1 + key.len() + 2,
        s[k1 + key.len() + 2] == ':',
        sp_skip_ws(s, k1 + key.len() + 3) == k1 + key.len() + 4,
{
    lemma_parse_str_quoted(s, k1, key);
    let c = k1 + key.len() + 2;
    lemma_holds_index(s, c, colon(), 0);
    lemma_holds_index(s, c, colon(), 1);
    assert(s[c] == ':' && s[c + 1] == ' ');
    lemma_skip_ws_run(s, c + 1, c + 2);
}

/// A comma and the line break before the next field: the parse lands exactly
/// on the next key's opening quote.
proof fn lemma_field_sep(s: Seq<char>, c1: int)
    requires
        0 <= c1,
        c1 + 8 < s.len(),
        s[c1] == ',',
        holds_at(s, c1 + 1, nli(6)),
        !is_ws(s[c1 + 8]),
    ensures
        sp_skip_ws(s, c1) == c1,
        sp_skip_ws(s, c1 + 1) == c1 + 8,
{
    lemma_nli(6);
    lemma_skip_ws_piece(s, c1 + 1, nli(6));
}

/// The literal words of the document, revealed once.
proof fn lemma_literals()
    ensures
        "id"@ =~= seq!['i', 'd'],
        "description"@ =~= seq!['d', 'e', 's', 'c', 'r', 'i', 'p', 't', 'i', 'o', 'n'],
        "status"@ =~= seq!['s', 't', 'a', 't', 'u', 's'],
        "created_at"@ =~= seq!['c', 'r', 'e', 'a', 't', 'e', 'd', '_', 'a', 't'],
        "completed_at"@ =~= seq!['c', 'o', 'm', 'p', 'l', 'e', 't', 'e', 'd', '_', 'a', 't'],
        "name"@ =~= seq!['n', 'a', 'm', 'e'],
        "tasks"@ =~= seq!['t', 'a', 's', 'k', 's'],
        "next_id"@ =~= seq!['n', 'e', 'x', 't', '_', 'i', 'd'],
        "null"@ =~= seq!['n', 'u', 'l', 'l'],
        "Pending"@ =~= seq!['P', 'e', 'n', 'd', 'i', 'n', 'g'],
        "Suspended"@ =~= seq!['S', 'u', 's', 'p', 'e', 'n', 'd', 'e', 'd'],
        "Completed"@ =~= seq!['C', 'o', 'm', 'p', 'l', 'e', 't', 'e', 'd'],
        no_escapes("id"@),
        no_escapes("description"@),
        no_escapes("status"@),
        no_escapes("created_at"@),
        no_escapes("completed_at"@),
        no_escapes("name"@),
        no_escapes("tasks"@),
        no_escapes("next_id"@),
        no_escapes("Pending"@),
        no_escapes("Suspended"@),
        no_escapes("Completed"@),
{
    reveal_strlit("id");
    reveal_strlit("description");
    reveal_strlit("status");
    reveal_strlit("created_at");
    reveal_strlit("completed_at");
    reveal_strlit("name");
    reveal_strlit("tasks");
    reveal_strlit("next_id");
    reveal_strlit("null");
    reveal_strlit("Pending");
    reveal_strlit("Suspended");
    reveal_strlit("Completed");
}

/// The status tag the writer emits names exactly the status it was given.
proof fn lemma_status_name(st: TaskStatus)
    ensures
        status_of_name(status_name(st)) == Option::Some(st),
        no_escapes(status_name(st)),
        status_name(st).len() >= 7,
{
    lemma_literals();
    match st {
        TaskStatus::Pending => {},
        TaskStatus::Suspended => {
            assert("Suspended"@ != "Pending"@);
        },
        TaskStatus::Completed => {
            assert("Completed"@ != "Pending"@);
            assert("Completed"@[0] != "Suspended"@[0]);
            assert("Completed"@ != "Suspended"@);
        },
    }
}

/// Digits are not whitespace.
proof fn lemma_digit_not_ws(c: char)
    requires
        is_digit(c),
    ensures
        !is_ws(c),
{
    assert(' ' as u32 == 32 && '\n' as u32 == 10 && '\t' as u32 == 9 && '\r' as u32 == 13);
}

/// A rendered integer starts with a digit.
proof fn lemma_ser_usize_head(n: usize)
    ensures
        ser_usize(n).len() >= 1,
        is_digit(ser_usize(n)[0]),
        !is_ws(ser_usize(n)[0]),
        !is_digit(','),
        !is_digit('\n'),
{
    if n == 0 {
        assert(ser_usize(n) =~= seq!['0']);
    } else {
        lemma_dec_digits_are_digits(n as nat);
    }
    lemma_digit_not_ws(ser_usize(n)[0]);
    assert(',' as u32 == 44 && '\n' as u32 == 10);
}

/// The task-field accumulators after each field the writer emits.
pub open spec fn task_acc0() -> TaskAcc {
    TaskAcc {
        id: Option::None,
        description: Option::None,
        status: Option::None,
        created_at: Option::None,
        completed_seen: false,
        completed_at: Option::None,
    }
}

/// The accumulator once `id` and `description` are read.
pub open spec fn task_acc2(t: TaskM) -> TaskAcc {
    TaskAcc {
        id: Option::Some(t.id),
        description: Option::Some(t.description),
        ..task_acc0()
    }
}

/// The accumulator once `status` and `created_at` are read as well.
pub open spec fn task_acc4(t: TaskM) -> TaskAcc {
    TaskAcc {
        status: Option::Some(t.status),
        created_at: Option::Some(t.created_at),
        ..task_acc2(t)
    }
}

/// The accumulator once every field of `t` is read.
pub open spec fn task_acc5(t: TaskM) -> TaskAcc {
    TaskAcc { completed_seen: true, completed_at: t.completed_at, ..task_acc4(t) }
}

/// Reading the `id` and `description` fields as the writer lays them out.
#[verifier::rlimit(100)]
#[verifier::spinoff_prover]
proof fn lemma_task_head(s: Seq<char>, k1: int, t: TaskM)
    requires
        holds_at(s, k1, quoted("id"@)),
        holds_at(s, k1 + 4, colon()),
        holds_at(s, k1 + 6, ser_usize(t.id)),
        ({
            let c1 = k1 + 6 + ser_usize(t.id).len();
            &&& c1 < s.len()
            &&& s[c1] == ','
            &&& holds_at(s, c1 + 1, nli(6))
            &&& holds_at(s, c1 + 8, quoted("description"@))
            &&& holds_at(s, c1 + 21, colon())
            &&& holds_at(s, c1 + 23, ser_string(t.description))
            &&& ({
                let c2 = c1 + 23 + ser_string(t.description).len();
                &&& c2 < s.len()
                &&& s[c2] == ','
                &&& holds_at(s, c2 + 1, nli(6))
                &&& c2 + 8 < s.len()
                &&& !is_ws(s[c2 + 8])
            })
        }),
    ensures
        sp_task_fields(s, k1, task_acc0()) == sp_task_fields(
            s,
            k1 + 6 + ser_usize(t.id).len() + 23 + ser_string(t.description).len() + 8,
            task_acc2(t),
        ),
{
    lemma_literals();
    lemma_nli(6);
    lemma_ser_usize_head(t.id);
    let c1 = k1 + 6 + ser_usize(t.id).len();
    let k2 = c1 + 8;
    let v2 = c1 + 23;
    let c2 = v2 + ser_string(t.description).len();
    let k3 = c2 + 8;
    let acc1 = TaskAcc { id: Option::Some(t.id), ..task_acc0() };
    lemma_holds_index(s, k1 + 6, ser_usize(t.id), 0);
    assert(!is_ws(s[k1 + 6]));
    lemma_key_colon(s, k1, "id"@);
    lemma_parse_num_ser(s, k1 + 6, t.id);
    assert(sp_task_fields(s, k1, task_acc0()) == sp_task_after(s, c1, acc1));
    lemma_holds_index(s, c1 + 8, quoted("description"@), 0);
    assert(s[c1 + 8] == '"' && !is_ws(s[c1 + 8]));
    lemma_field_sep(s, c1);
    assert(task_unseen(acc1) == 4);
    assert(sp_task_after(s, c1, acc1) == sp_task_fields(s, k2, acc1));
    assert("description"@ != "id"@);
    lemma_holds_index(s, v2, ser_string(t.description), 0);
    assert(s[v2] == '"' && !is_ws(s[v2]));
    lemma_key_colon(s, k2, "description"@);
    lemma_parse_str_ser(s, v2, t.description);
    assert(sp_task_fields(s, k2, acc1) == sp_task_after(s, c2, task_acc2(t)));
    lemma_field_sep(s, c2);
    assert(task_unseen(task_acc2(t)) == 3);
    assert(sp_task_after(s, c2, task_acc2(t)) == sp_task_fields(s, k3, task_acc2(t)));
}

/// Reading the `status` and `created_at` fields as the writer lays them out.
#[verifier::rlimit(100)]
#[verifier::spinoff_prover]
proof fn lemma_task_mid(s: Seq<char>, k3: int, t: TaskM)
    requires
        holds_at(s, k3, quoted("status"@)),
        holds_at(s, k3 + 8, colon()),
        holds_at(s, k3 + 10, quoted(status_name(t.status))),
        ({
            let c3 = k3 + 12 + status_name(t.status).len();
            &&& c3 < s.len()
            &&& s[c3] == ','
            &&& holds_at(s, c3 + 1, nli(6))
            &&& holds_at(s, c3 + 8, quoted("created_at"@))
            &&& holds_at(s, c3 + 20, colon())
            &&& holds_at(s, c3 + 22, ser_string(t.created_at))
            &&& ({
                let c4 = c3 + 22 + ser_string(t.created_at).len();
                &&& c4 < s.len()
                &&& s[c4] == ','
                &&& holds_at(s, c4 + 1, nli(6))
                &&& c4 + 8 < s.len()
                &&& !is_ws(s[c4 + 8])
            })
        }),
    ensures
        sp_task_fields(s, k3, task_acc2(t)) == sp_task_fields(
            s,
            k3 + 12 + status_name(t.status).len() + 22 + ser_string(t.created_at).len() + 8,
            task_acc4(t),
        ),
{
    lemma_literals();
    lemma_nli(6);
    lemma_status_name(t.status);
    let c3 = k3 + 12 + status_name(t.status).len();
    let k4 = c3 + 8;
    let v4 = c3 + 22;
    let c4 = v4 + ser_string(t.created_at).len();
    let k5 = c4 + 8;
    let acc3 = TaskAcc { status: Option::Some(t.status), ..task_acc2(t) };
    assert("status"@ != "id"@ && "status"@ != "description"@);
    lemma_holds_index(s, k3 + 10, quoted(status_name(t.status)), 0);
    assert(s[k3 + 10] == '"' && !is_ws(s[k3 + 10]));
    lemma_key_colon(s, k3, "status"@);
    lemma_parse_str_quoted(s, k3 + 10, status_name(t.status));
    assert(sp_task_fields(s, k3, task_acc2(t)) == sp_task_after(s, c3, acc3));
    lemma_holds_index(s, c3 + 8, quoted("created_at"@), 0);
    assert(s[c3 + 8] == '"' && !is_ws(s[c3 + 8]));
    lemma_field_sep(s, c3);
    assert(task_unseen(acc3) == 2);
    assert(sp_task_after(s, c3, acc3) == sp_task_fields(s, k4, acc3));
    assert("created_at"@ != "id"@ && "created_at"@ != "description"@ && "created_at"@
        != "status"@);
    lemma_holds_index(s, v4, ser_string(t.created_at), 0);
    assert(s[v4] == '"' && !is_ws(s[v4]));
    lemma_key_colon(s, k4, "created_at"@);
    lemma_parse_str_ser(s, v4, t.created_at);
    assert(sp_task_fields(s, k4, acc3) == sp_task_after(s, c4, task_acc4(t)));
    lemma_field_sep(s, c4);
    assert(task_unseen(task_acc4(t)) == 1);
    assert(sp_task_after(s, c4, task_acc4(t)) == sp_task_fields(s, k5, task_acc4(t)));
}

/// Reading the final `completed_at` field and the closing brace.
#[verifier::rlimit(100)]
#[verifier::spinoff_prover]
proof fn lemma_task_last(s: Seq<char>, k5: int, t: TaskM)
    requires
        holds_at(s, k5, quoted("completed_at"@)),
        holds_at(s, k5 + 14, colon()),
        holds_at(s, k5 + 16, ser_opt(t.completed_at)),
        ({
            let w = k5 + 16 + ser_opt(t.completed_at).len();
            &&& holds_at(s, w, nli(4))
            &&& w + 5 < s.len()
            &&& s[w + 5] == '}'
        }),
    ensures
        sp_task_fields(s, k5, task_acc4(t)) == Option::Some(
            (task_acc5(t), k5 + 16 + ser_opt(t.completed_at).len() + 6),
        ),
{
    lemma_literals();
    lemma_nli(4);
    let v5 = k5 + 16;
    let w = v5 + ser_opt(t.completed_at).len();
    assert("completed_at"@ != "id"@ && "completed_at"@ != "description"@ && "completed_at"@
        != "status"@ && "completed_at"@ != "created_at"@);
    match t.completed_at {
        Option::None => {
            lemma_holds_index(s, v5, "null"@, 0);
            lemma_holds_index(s, v5, "null"@, 1);
            lemma_holds_index(s, v5, "null"@, 2);
            lemma_holds_index(s, v5, "null"@, 3);
            assert(s[v5] == 'n' && s[v5 + 1] == 'u' && s[v5 + 2] == 'l' && s[v5 + 3] == 'l');
            assert(!is_ws(s[v5]));
            lemma_key_colon(s, k5, "completed_at"@);
            assert(w == v5 + 4);
            assert(sp_task_fields(s, k5, task_acc4(t)) == sp_task_after(s, w, task_acc5(t)));
        },
        Option::Some(ca) => {
            lemma_holds_index(s, v5, ser_string(ca), 0);
            assert(s[v5] == '"' && s[v5] != 'n');
            assert(!is_ws(s[v5]));
            lemma_key_colon(s, k5, "completed_at"@);
            lemma_parse_str_ser(s, v5, ca);
            assert(sp_task_fields(s, k5, task_acc4(t)) == sp_task_after(s, w, task_acc5(t)));
        },
    }
    lemma_skip_ws_piece(s, w, nli(4));
    assert(sp_skip_ws(s, w) == w + 5);
    assert(sp_task_after(s, w, task_acc5(t)) == Option::Some((task_acc5(t), w + 6)));
}

/// Parsing a task over the writer's rendering of `t` recovers `t` exactly
/// and stops right after the closing brace.
#[verifier::rlimit(100)]
#[verifier::spinoff_prover]
proof fn lemma_task_roundtrip(s: Seq<char>, i: int, t: TaskM)
    requires
        holds_at(s, i, ser_task(t)),
    ensures
        sp_task(s, i) == Option::Some((t, i + ser_task(t).len())),
{
    lemma_literals();
    lemma_nli(6);
    lemma_nli(4);
    lemma_status_name(t.status);
    let a01 = seq!['{'];
    let a02 = a01 + nli(6);
    let a03 = a02 + quoted("id"@);
    let a04 = a03 + colon();
    let a05 = a04 + ser_usize(t.id);
    let a06 = a05 + seq![','];
    let a07 = a06 + nli(6);
    let a08 = a07 + quoted("description"@);
    let a09 = a08 + colon();
    let a10 = a09 + ser_string(t.description);
    let a11 = a10 + seq![','];
    let a12 = a11 + nli(6);
    let a13 = a12 + quoted("status"@);
    let a14 = a13 + colon();
    let a15 = a14 + quoted(status_name(t.status));
    let a16 = a15 + seq![','];
    let a17 = a16 + nli(6);
    let a18 = a17 + quoted("created_at"@);
    let a19 = a18 + colon();
    let a20 = a19 + ser_string(t.created_at);
    let a21 = a20 + seq![','];
    let a22 = a21 + nli(6);
    let a23 = a22 + quoted("completed_at"@);
    let a24 = a23 + colon();
    let a25 = a24 + ser_opt(t.completed_at);
    let a26 = a25 + nli(4);
    let a27 = a26 + seq!['}'];
    assert(ser_task(t) == a27);
    lemma_holds_split(s, i, a26, seq!['}']);
    lemma_holds_split(s, i, a25, nli(4));
    lemma_holds_split(s, i, a24, ser_opt(t.completed_at));
    lemma_holds_split(s, i, a23, colon());
    lemma_holds_split(s, i, a22, quoted("completed_at"@));
    lemma_holds_split(s, i, a21, nli(6));
    lemma_holds_split(s, i, a20, seq![',']);
    lemma_holds_split(s, i, a19, ser_string(t.created_at));
    lemma_holds_split(s, i, a18, colon());
    lemma_holds_split(s, i, a17, quoted("created_at"@));
    lemma_holds_split(s, i, a16, nli(6));
    lemma_holds_split(s, i, a15, seq![',']);
    lemma_holds_split(s, i, a14, quoted(status_name(t.status)));
    lemma_holds_split(s, i, a13, colon());
    lemma_holds_split(s, i, a12, quoted("status"@));
    lemma_holds_split(s, i, a11, nli(6));
    lemma_holds_split(s, i, a10, seq![',']);
    lemma_holds_split(s, i, a09, ser_string(t.description));
    lemma_holds_split(s, i, a08, colon());
    lemma_holds_split(s, i, a07, quoted("description"@));
    lemma_holds_split(s, i, a06, nli(6));
    lemma_holds_split(s, i, a05, seq![',']);
    lemma_holds_split(s, i, a04, ser_usize(t.id));
    lemma_holds_split(s, i, a03, colon());
    lemma_holds_split(s, i, a02, quoted("id"@));
    lemma_holds_split(s, i, a01, nli(6));
    let k1 = i + a02.len();
    let c1 = i + a05.len();
    let k3 = i + a12.len();
    let c3 = i + a15.len();
    let k5 = i + a22.len();
    let w = i + a25.len();
    let e = i + a27.len();
    lemma_holds_index(s, i, a01, 0);
    assert(s[i] == '{');
    lemma_holds_index(s, k1, quoted("id"@), 0);
    lemma_holds_index(s, c1, seq![','], 0);
    lemma_holds_index(s, i + a10.len(), seq![','], 0);
    lemma_holds_index(s, i + a12.len(), quoted("status"@), 0);
    lemma_holds_index(s, c3, seq![','], 0);
    lemma_holds_index(s, i + a20.len(), seq![','], 0);
    lemma_holds_index(s, i + a22.len(), quoted("completed_at"@), 0);
    lemma_holds_index(s, i + a26.len(), seq!['}'], 0);
    assert(s[i + a26.len()] == '}');
    // the opening brace, then the first key
    lemma_skip_ws_piece(s, i + 1, nli(6));
    assert(sp_skip_ws(s, i + 1) == k1);
    assert(s[k1] == '"' && s[k1] != '}');
    // the three stretches of fields
    lemma_task_head(s, k1, t);
    assert(k1 + 6 + ser_usize(t.id).len() + 23 + ser_string(t.description).len() + 8 == k3);
    lemma_task_mid(s, k3, t);
    assert(k3 + 12 + status_name(t.status).len() + 22 + ser_string(t.created_at).len() + 8 == k5);
    lemma_task_last(s, k5, t);
    assert(k5 + 16 + ser_opt(t.completed_at).len() + 6 == e);
    assert(sp_task_fields(s, k1, task_acc0()) == Option::Some((task_acc5(t), e)));
    // the gathered fields are exactly `t`
    assert(task_finish(task_acc5(t)) == Option::Some(t));
    assert(sp_task(s, i) == Option::Some((t, e)));
}

/// A rendered task starts with its opening brace.
#[verifier::rlimit(100)]
proof fn lemma_ser_task_head(t: TaskM)
    ensures
        ser_task(t).len() >= 1,
        ser_task(t)[0] == '{',
{
    lemma_nli(6);
    assert(ser_task(t)[0] == '{');
}

/// The text of the array elements from some task on: the task itself, then a
/// comma, a line break and the rest.
pub open spec fn items_txt(ts: Seq<TaskM>) -> Seq<char>
    decreases ts.len(),
{
    if ts.len() <= 1 {
        ser_task(ts[0])
    } else {
        ser_task(ts[0]) + seq![','] + nli(4) + items_txt(ts.subrange(1, ts.len() as int))
    }
}

/// How the writer's array body decomposes: the indentation, then the items.
proof fn lemma_rest_items(ts: Seq<TaskM>)
    requires
        ts.len() > 0,
    ensures
        ser_tasks_rest(ts) == nli(4) + items_txt(ts),
    decreases ts.len(),
{
    if ts.len() == 1 {
        assert(ser_tasks_rest(ts) =~= nli(4) + items_txt(ts));
    } else {
        lemma_rest_items(ts.subrange(1, ts.len() as int));
        assert(ser_tasks_rest(ts) =~= nli(4) + items_txt(ts));
    }
}

/// Parsing array elements over the writer's text for `ts` gathers exactly
/// `ts` and stops right after the closing bracket.
#[verifier::rlimit(100)]
#[verifier::spinoff_prover]
proof fn lemma_items_roundtrip(s: Seq<char>, p: int, ts: Seq<TaskM>, acc: Seq<TaskM>)
    requires
        ts.len() > 0,
        holds_at(s, p, items_txt(ts)),
        ({
            let q = p + items_txt(ts).len();
            &&& holds_at(s, q, nli(2))
            &&& q + 3 < s.len()
            &&& s[q + 3] == ']'
        }),
    ensures
        sp_tasks_items(s, p, acc) == Option::Some(
            (acc + ts, p + items_txt(ts).len() + 4),
        ),
    decreases ts.len(),
{
    lemma_nli(4);
    lemma_nli(2);
    let q = p + items_txt(ts).len();
    if ts.len() == 1 {
        lemma_task_roundtrip(s, p, ts[0]);
        let j = p + ser_task(ts[0]).len();
        assert(j == q);
        lemma_skip_ws_piece(s, j, nli(2));
        assert(sp_skip_ws(s, j) == q + 3);
        assert(s[q + 3] == ']');
        assert(acc.push(ts[0]) =~= acc + ts);
        assert(sp_tasks_items(s, p, acc) == Option::Some((acc + ts, q + 4)));
    } else {
        let rest = ts.subrange(1, ts.len() as int);
        assert(items_txt(ts) == ser_task(ts[0]) + seq![','] + nli(4) + items_txt(rest));
        lemma_holds_split(s, p, ser_task(ts[0]) + seq![','] + nli(4), items_txt(rest));
        lemma_holds_split(s, p, ser_task(ts[0]) + seq![','], nli(4));
        lemma_holds_split(s, p, ser_task(ts[0]), seq![',']);
        lemma_task_roundtrip(s, p, ts[0]);
        let j = p + ser_task(ts[0]).len();
        let p2 = j + 6;
        lemma_holds_index(s, j, seq![','], 0);
        assert(s[j] == ',');
        assert(holds_at(s, p2, items_txt(rest)));
        assert(holds_at(s, p2, ser_task(rest[0]))) by {
            if rest.len() == 1 {
                assert(items_txt(rest) == ser_task(rest[0]));
            } else {
                assert(items_txt(rest) == ser_task(rest[0]) + seq![','] + nli(4) + items_txt(
                    rest.subrange(1, rest.len() as int),
                ));
                lemma_holds_split(
                    s,
                    p2,
                    ser_task(rest[0]) + seq![','] + nli(4),
                    items_txt(rest.subrange(1, rest.len() as int)),
                );
                lemma_holds_split(s, p2, ser_task(rest[0]) + seq![','], nli(4));
                lemma_holds_split(s, p2, ser_task(rest[0]), seq![',']);
            }
        }
        lemma_ser_task_head(rest[0]);
        lemma_holds_index(s, p2, ser_task(rest[0]), 0);
        assert(s[p2] == '{' && !is_ws(s[p2]));
        lemma_skip_ws_piece(s, j + 1, nli(4));
        assert(sp_skip_ws(s, j) == j);
        assert(sp_skip_ws(s, j + 1) == p2);
        lemma_items_roundtrip(s, p2, rest, acc.push(ts[0]));
        assert(acc.push(ts[0]) + rest =~= acc + ts);
        assert(p2 + items_txt(rest).len() + 4 == q + 4);
        assert(sp_tasks_items(s, p, acc) == Option::Some((acc + ts, q + 4)));
    }
}

/// Parsing an array over the writer's rendering of `ts` recovers `ts`
/// exactly and stops right after the closing bracket.
#[verifier::rlimit(100)]
#[verifier::spinoff_prover]
proof fn lemma_tasks_roundtrip(s: Seq<char>, i: int, ts: Seq<TaskM>)
    requires
        holds_at(s, i, ser_tasks(ts)),
    ensures
        sp_tasks(s, i) == Option::Some((ts, i + ser_tasks(ts).len())),
{
    lemma_nli(4);
    lemma_nli(2);
    if ts.len() == 0 {
        lemma_holds_index(s, i, ser_tasks(ts), 0);
        lemma_holds_index(s, i, ser_tasks(ts), 1);
        assert(s[i] == '[' && s[i + 1] == ']');
        assert(sp_skip_ws(s, i + 1) == i + 1);
        assert(sp_tasks(s, i) == Option::Some((Seq::<TaskM>::empty(), i + 2)));
        assert(Seq::<TaskM>::empty() =~= ts);
    } else {
        let b1 = seq!['['];
        let b2 = b1 + ser_tasks_rest(ts);
        let b3 = b2 + nli(2);
        let b4 = b3 + seq![']'];
        assert(ser_tasks(ts) == b4);
        lemma_holds_split(s, i, b3, seq![']']);
        lemma_holds_split(s, i, b2, nli(2));
        lemma_holds_split(s, i, b1, ser_tasks_rest(ts));
        lemma_holds_index(s, i, b1, 0);
        assert(s[i] == '[');
        lemma_rest_items(ts);
        assert(holds_at(s, i + 1, nli(4) + items_txt(ts)));
        lemma_holds_split(s, i + 1, nli(4), items_txt(ts));
        let p = i + 6;
        assert(holds_at(s, p, items_txt(ts)));
        assert(holds_at(s, p, ser_task(ts[0]))) by {
            if ts.len() == 1 {
                assert(items_txt(ts) == ser_task(ts[0]));
            } else {
                assert(items_txt(ts) == ser_task(ts[0]) + seq![','] + nli(4) + items_txt(
                    ts.subrange(1, ts.len() as int),
                ));
                lemma_holds_split(
                    s,
                    p,
                    ser_task(ts[0]) + seq![','] + nli(4),
                    items_txt(ts.subrange(1, ts.len() as int)),
                );
                lemma_holds_split(s, p, ser_task(ts[0]) + seq![','], nli(4));
                lemma_holds_split(s, p, ser_task(ts[0]), seq![',']);
            }
        }
        lemma_ser_task_head(ts[0]);
        lemma_holds_index(s, p, ser_task(ts[0]), 0);
        assert(s[p] == '{' && !is_ws(s[p]) && s[p] != ']');
        lemma_skip_ws_piece(s, i + 1, nli(4));
        assert(sp_skip_ws(s, i + 1) == p);
        let q = p + items_txt(ts).len();
        lemma_holds_index(s, i + b3.len(), seq![']'], 0);
        assert(s[q + 3] == ']');
        lemma_items_roundtrip(s, p, ts, Seq::empty());
        assert(Seq::<TaskM>::empty() + ts =~= ts);
        assert(q + 4 == i + ser_tasks(ts).len());
        assert(sp_tasks(s, i) == Option::Some((ts, i + ser_tasks(ts).len())));
    }
}

/// The document-field accumulators after each field the writer emits.
pub open spec fn doc_acc0() -> DocAcc {
    DocAcc { name: Option::None, tasks: Option::None, next_id: Option::None }
}

/// The accumulator once every field of `m` is read.
pub open spec fn doc_acc3(m: TaskListM) -> DocAcc {
    DocAcc {
        name: Option::Some(m.name),
        tasks: Option::Some(m.tasks),
        next_id: Option::Some(m.next_id),
    }
}

/// Reading the three top-level fields and the closing brace as the writer
/// lays them out.
#[verifier::rlimit(100)]
#[verifier::spinoff_prover]
proof fn lemma_doc_fields_roundtrip(s: Seq<char>, k1: int, m: TaskListM)
    requires
        holds_at(s, k1, quoted("name"@)),
        holds_at(s, k1 + 6, colon()),
        holds_at(s, k1 + 8, ser_string(m.name)),
        ({
            let c1 = k1 + 8 + ser_string(m.name).len();
            &&& c1 < s.len()
            &&& s[c1] == ','
            &&& holds_at(s, c1 + 1, nli(2))
            &&& holds_at(s, c1 + 4, quoted("tasks"@))
            &&& holds_at(s, c1 + 11, colon())
            &&& holds_at(s, c1 + 13, ser_tasks(m.tasks))
            &&& ({
                let c2 = c1 + 13 + ser_tasks(m.tasks).len();
                &&& c2 < s.len()
                &&& s[c2] == ','
                &&& holds_at(s, c2 + 1, nli(2))
                &&& holds_at(s, c2 + 4, quoted("next_id"@))
                &&& holds_at(s, c2 + 13, colon())
                &&& holds_at(s, c2 + 15, ser_usize(m.next_id))
                &&& ({
                    let w = c2 + 15 + ser_usize(m.next_id).len();
                    &&& holds_at(s, w, nli(0))
                    &&& w + 1 < s.len()
                    &&& s[w + 1] == '}'
                })
            })
        }),
    ensures
        sp_doc_fields(s, k1, doc_acc0()) == Option::Some(
            (
                doc_acc3(m),
                k1 + 8 + ser_string(m.name).len() + 13 + ser_tasks(m.tasks).len() + 15 + ser_usize(
                    m.next_id,
                ).len() + 2,
            ),
        ),
{
    lemma_literals();
    lemma_nli(2);
    lemma_nli(0);
    lemma_ser_usize_head(m.next_id);
    let c1 = k1 + 8 + ser_string(m.name).len();
    let k2 = c1 + 4;
    let v2 = c1 + 13;
    let c2 = v2 + ser_tasks(m.tasks).len();
    let k3 = c2 + 4;
    let v3 = c2 + 15;
    let w = v3 + ser_usize(m.next_id).len();
    let d1 = DocAcc { name: Option::Some(m.name), ..doc_acc0() };
    let d2 = DocAcc { tasks: Option::Some(m.tasks), ..d1 };
    // field 1: name
    lemma_holds_index(s, k1 + 8, ser_string(m.name), 0);
    assert(s[k1 + 8] == '"' && !is_ws(s[k1 + 8]));
    lemma_key_colon(s, k1, "name"@);
    lemma_parse_str_ser(s, k1 + 8, m.name);
    assert(sp_doc_fields(s, k1, doc_acc0()) == sp_doc_after(s, c1, d1));
    lemma_holds_index(s, c1 + 4, quoted("tasks"@), 0);
    assert(s[k2] == '"' && !is_ws(s[k2]));
    lemma_skip_ws_piece(s, c1 + 1, nli(2));
    assert(sp_skip_ws(s, c1) == c1);
    assert(doc_unseen(d1) == 2);
    assert(sp_doc_after(s, c1, d1) == sp_doc_fields(s, k2, d1));
    // field 2: tasks
    assert("tasks"@ != "name"@);
    lemma_holds_index(s, v2, ser_tasks(m.tasks), 0);
    assert(s[v2] == '[' && !is_ws(s[v2])) by {
        if m.tasks.len() == 0 {
            assert(ser_tasks(m.tasks)[0] == '[');
        } else {
            assert(ser_tasks(m.tasks)[0] == '[');
        }
    }
    lemma_key_colon(s, k2, "tasks"@);
    lemma_tasks_roundtrip(s, v2, m.tasks);
    assert(sp_doc_fields(s, k2, d1) == sp_doc_after(s, c2, d2));
    lemma_holds_index(s, c2 + 4, quoted("next_id"@), 0);
    assert(s[k3] == '"' && !is_ws(s[k3]));
    lemma_skip_ws_piece(s, c2 + 1, nli(2));
    assert(sp_skip_ws(s, c2) == c2);
    assert(doc_unseen(d2) == 1);
    assert(sp_doc_after(s, c2, d2) == sp_doc_fields(s, k3, d2));
    // field 3: next_id
    assert("next_id"@ != "name"@ && "next_id"@ != "tasks"@);
    lemma_holds_index(s, v3, ser_usize(m.next_id), 0);
    assert(!is_ws(s[v3]));
    lemma_key_colon(s, k3, "next_id"@);
    lemma_holds_index(s, w, nli(0), 0);
    assert(s[w] == '\n');
    assert(!is_digit(s[w]));
    lemma_parse_num_ser(s, v3, m.next_id);
    assert(sp_doc_fields(s, k3, d2) == sp_doc_after(s, w, doc_acc3(m)));
    // the closing brace
    lemma_skip_ws_piece(s, w, nli(0));
    assert(sp_skip_ws(s, w) == w + 1);
    assert(s[w + 1] == '}');
    assert(sp_doc_after(s, w, doc_acc3(m)) == Option::Some((doc_acc3(m), w + 2)));
}

/// Where each piece of the written document stands.
#[verifier::rlimit(100)]
#[verifier::spinoff_prover]
proof fn lemma_doc_pieces(m: TaskListM)
    ensures
        ({
            let s = ser_doc(m);
            let n1 = ser_string(m.name).len() as int;
            let n2 = ser_tasks(m.tasks).len() as int;
            let n3 = ser_usize(m.next_id).len() as int;
            &&& s.len() == 42 + n1 + n2 + n3
            &&& s[0] == '{'
            &&& holds_at(s, 1, nli(2))
            &&& holds_at(s, 4, quoted("name"@))
            &&& holds_at(s, 10, colon())
            &&& holds_at(s, 12, ser_string(m.name))
            &&& s[12 + n1] == ','
            &&& holds_at(s, 13 + n1, nli(2))
            &&& holds_at(s, 16 + n1, quoted("tasks"@))
            &&& holds_at(s, 23 + n1, colon())
            &&& holds_at(s, 25 + n1, ser_tasks(m.tasks))
            &&& s[25 + n1 + n2] == ','
            &&& holds_at(s, 26 + n1 + n2, nli(2))
            &&& holds_at(s, 29 + n1 + n2, quoted("next_id"@))
            &&& holds_at(s, 38 + n1 + n2, colon())
            &&& holds_at(s, 40 + n1 + n2, ser_usize(m.next_id))
            &&& holds_at(s, 40 + n1 + n2 + n3, nli(0))
            &&& s[41 + n1 + n2 + n3] == '}'
        }),
{
    lemma_literals();
    lemma_nli(2);
    lemma_nli(0);
    let s = ser_doc(m);
    let b01 = seq!['{'];
    let b02 = b01 + nli(2);
    let b03 = b02 + quoted("name"@);
    let b04 = b03 + colon();
    let b05 = b04 + ser_string(m.name);
    let b06 = b05 + seq![','];
    let b07 = b06 + nli(2);
    let b08 = b07 + quoted("tasks"@);
    let b09 = b08 + colon();
    let b10 = b09 + ser_tasks(m.tasks);
    let b11 = b10 + seq![','];
    let b12 = b11 + nli(2);
    let b13 = b12 + quoted("next_id"@);
    let b14 = b13 + colon();
    let b15 = b14 + ser_usize(m.next_id);
    let b16 = b15 + nli(0);
    let b17 = b16 + seq!['}'];
    assert(s == b17);
    assert(holds_at(s, 0, s)) by {
        assert(s.subrange(0, s.len() as int) =~= s);
    }
    lemma_holds_split(s, 0, b16, seq!['}']);
    lemma_holds_split(s, 0, b15, nli(0));
    lemma_holds_split(s, 0, b14, ser_usize(m.next_id));
    lemma_holds_split(s, 0, b13, colon());
    lemma_holds_split(s, 0, b12, quoted("next_id"@));
    lemma_holds_split(s, 0, b11, nli(2));
    lemma_holds_split(s, 0, b10, seq![',']);
    lemma_holds_split(s, 0, b09, ser_tasks(m.tasks));
    lemma_holds_split(s, 0, b08, colon());
    lemma_holds_split(s, 0, b07, quoted("tasks"@));
    lemma_holds_split(s, 0, b06, nli(2));
    lemma_holds_split(s, 0, b05, seq![',']);
    lemma_holds_split(s, 0, b04, ser_string(m.name));
    lemma_holds_split(s, 0, b03, colon());
    lemma_holds_split(s, 0, b02, quoted("name"@));
    lemma_holds_split(s, 0, b01, nli(2));
    lemma_holds_index(s, 0, b01, 0);
    lemma_holds_index(s, b05.len() as int, seq![','], 0);
    lemma_holds_index(s, b10.len() as int, seq![','], 0);
    lemma_holds_index(s, b16.len() as int, seq!['}'], 0);
}

/// Law (round trip): loading what was saved yields the same task list. For
/// every task list value, the document the writer produces parses back to
/// exactly that value — the name, every task with all its fields in order,
/// and the allocator state.
#[verifier::rlimit(100)]
#[verifier::spinoff_prover]
pub proof fn lemma_save_load_roundtrip(m: TaskListM)
    ensures
        sp_doc(ser_doc(m)) == Option::Some(m),
{
    lemma_doc_pieces(m);
    lemma_nli(2);
    lemma_nli(0);
    let s = ser_doc(m);
    let n1 = ser_string(m.name).len() as int;
    let n2 = ser_tasks(m.tasks).len() as int;
    let n3 = ser_usize(m.next_id).len() as int;
    let k1 = 4int;
    assert(!is_ws(s[0]));
    assert(sp_skip_ws(s, 0) == 0);
    lemma_holds_index(s, k1, quoted("name"@), 0);
    assert(s[k1] == '"' && !is_ws(s[k1]) && s[k1] != '}');
    lemma_skip_ws_piece(s, 1, nli(2));
    assert(sp_skip_ws(s, 1) == k1);
    lemma_doc_fields_roundtrip(s, k1, m);
    let e = 42 + n1 + n2 + n3;
    assert(sp_doc_fields(s, k1, doc_acc0()) == Option::Some((doc_acc3(m), e)));
    assert(e == s.len());
    assert(sp_skip_ws(s, e) == e);
    assert(doc_finish(doc_acc3(m)) == Option::Some(m));
    assert(sp_doc(s) == Option::Some(m));
}

} // verus!
