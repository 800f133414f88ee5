//! The text of the `locks` monitor command: one line per registered lock,
//! saying whether it is held. The registry itself lives with the threads
//! that own the locks; this module only lays out the report.
use vstd::prelude::*;
use crate::text::{chars_eq_str, message, str_chars};

verus! {

/// Decimal digit `d` (below 10).
pub open spec fn dec_char(d: nat) -> char {
    ('0' as nat + d) as char
}

/// The decimal text of `n`, without leading zeros (`format!("{}")`).
pub open spec fn dec_text(n: nat) -> Seq<char>
    decreases n,
{
    if n < 10 {
        seq![dec_char(n)]
    } else {
        dec_text(n / 10).push(dec_char(n % 10))
    }
}

fn dec_digit(d: u64) -> (r: &'static str)
    requires
        d < 10,
    ensures
        r@ == seq![dec_char(d as nat)],
{
    proof {
        reveal_strlit("0");
        reveal_strlit("1");
        reveal_strlit("2");
        reveal_strlit("3");
        reveal_strlit("4");
        reveal_strlit("5");
        reveal_strlit("6");
        reveal_strlit("7");
        reveal_strlit("8");
        reveal_strlit("9");
    }
    let r = match d {
        0 => "0",
        1 => "1",
        2 => "2",
        3 => "3",
        4 => "4",
        5 => "5",
        6 => "6",
        7 => "7",
        8 => "8",
        _ => "9",
    };
    assert(r@ =~= seq![dec_char(d as nat)]);
    r
}

/// Appends the decimal text of `n` to `s`.
pub(crate) fn push_decimal(s: &mut String, n: u64)
    ensures
        final(s)@ == old(s)@ + dec_text(n as nat),
    decreases n,
{
    if n >= 10 {
        push_decimal(s, n / 10);
    }
    s.append(dec_digit(n % 10));
    proof {
        if n >= 10 {
            assert(dec_text(n as nat) == dec_text((n / 10) as nat).push(dec_char((n % 10) as nat)));
        }
    }
    assert(s@ =~= old(s)@ + dec_text(n as nat));
}

/// `s` padded with spaces to `width` characters (`format!("{:width$}")`);
/// longer text is left whole.
pub open spec fn pad_to(s: Seq<char>, width: nat) -> Seq<char> {
    if s.len() >= width {
        s
    } else {
        s + Seq::new((width - s.len()) as nat, |i: int| ' ')
    }
}

/// Width of the name column of the report.
pub const NAME_WIDTH: usize = 50;

/// The report line of one lock.
pub open spec fn lock_line(name: Seq<char>, locked: bool) -> Seq<char> {
    "  "@ + pad_to(name, NAME_WIDTH as nat) + " "@ + (if locked {
        "LOCKED"@
    } else {
        "free"@
    }) + "\n"@
}

/// The lines of the first `n` locks, in registration order.
pub open spec fn lock_lines(es: Seq<(Seq<char>, bool)>, n: int) -> Seq<char>
    decreases n,
{
    if n <= 0 || n > es.len() {
        Seq::empty()
    } else {
        lock_lines(es, n - 1) + lock_line(es[n - 1].0, es[n - 1].1)
    }
}

/// The text of the `locks` command for locks with these names and states:
/// a header with their number, a line per lock, and a closing note when
/// none is held.
pub open spec fn lock_report(es: Seq<(Seq<char>, bool)>) -> Seq<char> {
    "=== System Lock Status ("@ + dec_text(es.len()) + " registered) ===\n"@ + lock_lines(
        es,
        es.len() as int,
    ) + (if exists|k: int| 0 <= k < es.len() && (#[trigger] es[k]).1 {
        Seq::empty()
    } else {
        "  (all locks free)\n"@
    })
}

/// The names and states of `entries` as character sequences.
pub open spec fn entries_view(entries: Seq<(String, bool)>) -> Seq<(Seq<char>, bool)> {
    entries.map_values(|e: (String, bool)| (e.0@, e.1))
}

/// Appends `name` padded to the name column.
fn push_padded(s: &mut String, name: &str)
    ensures
        final(s)@ == old(s)@ + pad_to(name@, NAME_WIDTH as nat),
{
    s.append(name);
    let len = name.unicode_len();
    let mut k = len;
    while k < NAME_WIDTH
        invariant
            len == name@.len(),
            len <= k <= NAME_WIDTH || (len > NAME_WIDTH && k == len),
            s@ == old(s)@ + name@ + Seq::new((k - len) as nat, |i: int| ' '),
        decreases NAME_WIDTH - k,
    {
        s.append(" ");
        proof {
            reveal_strlit(" ");
        }
        assert(s@ =~= old(s)@ + name@ + Seq::new((k + 1 - len) as nat, |i: int| ' '));
        k = k + 1;
    }
    if len >= NAME_WIDTH {
        assert(s@ =~= old(s)@ + name@);
    } else {
        assert(s@ =~= old(s)@ + pad_to(name@, NAME_WIDTH as nat));
    }
}

/// The text of the `locks` command (see `lock_report`).
pub fn lock_status_report(entries: &Vec<(String, bool)>) -> (t: String)
    ensures
        t@ == lock_report(entries_view(entries@)),
{
    let ghost es = entries_view(entries@);
    let mut t = String::from_str("=== System Lock Status (");
    push_decimal(&mut t, entries.len() as u64);
    t.append(" registered) ===\n");
    let ghost head = t@;
    let mut any_locked = false;
    let mut i: usize = 0;
    while i < entries.len()
        invariant
            es == entries_view(entries@),
            i <= entries@.len(),
            t@ == head + lock_lines(es, i as int),
            any_locked == exists|k: int| 0 <= k < i && (#[trigger] es[k]).1,
        decreases entries@.len() - i,
    {
        let (name, locked) = (&entries[i].0, entries[i].1);
        t.append("  ");
        push_padded(&mut t, name.as_str());
        t.append(" ");
        if locked {
            t.append("LOCKED");
            any_locked = true;
        } else {
            t.append("free");
        }
        t.append("\n");
        proof {
            assert(es[i as int] == (name@, locked));
            assert(lock_lines(es, i + 1) == lock_lines(es, i as int) + lock_line(name@, locked));
            assert(t@ =~= head + lock_lines(es, i + 1));
            if locked {
                assert(es[i as int].1);
            }
        }
        i = i + 1;
    }
    if !any_locked {
        t.append("  (all locks free)\n");
    }
    assert(t@ =~= lock_report(es));
    t
}

/// Whether a command sent to the lock monitor needs the lock states: only
/// `locks` does, so for any other command no lock is asked whether it is
/// held.
pub fn wants_lock_states(cmd: &str) -> (b: bool)
    ensures
        b == (cmd@ == "locks"@),
{
    let c = str_chars(cmd);
    let n = c.len();
    assert(c@.subrange(0, n as int) =~= c@);
    chars_eq_str(&c, 0, n, "locks")
}

/// Answers a command sent to the lock monitor: the report for `locks`,
/// an error naming any other command, whatever `entries` holds.
pub fn locks_command(cmd: &str, entries: &Vec<(String, bool)>) -> (r: Result<String, String>)
    ensures
        cmd@ == "locks"@ ==> r is Ok && r->Ok_0@ == lock_report(entries_view(entries@)),
        cmd@ != "locks"@ ==> r is Err && r->Err_0@ == "Unknown command: "@ + cmd@,
{
    let c = str_chars(cmd);
    let n = c.len();
    assert(c@.subrange(0, n as int) =~= c@);
    if chars_eq_str(&c, 0, n, "locks") {
        Ok(lock_status_report(entries))
    } else {
        Err(message("Unknown command: ", cmd))
    }
}

} // verus!
