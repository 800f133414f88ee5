//! What the monitor makes of a command line: the words of the line, the
//! session commands (`quit`, `exit`, `help`) and which device answers a
//! command.
use vstd::prelude::*;
use crate::text::{char_is_whitespace, chars_eq_str, is_whitespace, str_chars, substring};

verus! {

/// One request typed at the monitor prompt.
#[derive(Debug)]
pub enum MonitorRequest {
    /// A blank line.
    Empty,
    /// `quit` or `exit`: end the session.
    Quit,
    /// `help`: list every device's commands.
    Help,
    /// A device command and its arguments.
    Command(String, Vec<String>),
}

/// End of the run of non-whitespace characters of `s` starting at `i`.
pub open spec fn word_end(s: Seq<char>, i: int) -> int
    decreases s.len() - i,
{
    if 0 <= i < s.len() && !char_is_whitespace(s[i]) {
        word_end(s, i + 1)
    } else {
        i
    }
}

proof fn lemma_word_end(s: Seq<char>, i: int)
    requires
        0 <= i <= s.len(),
    ensures
        i <= word_end(s, i) <= s.len(),
        forall|k: int| i <= k < word_end(s, i) ==> !char_is_whitespace(#[trigger] s[k]),
        word_end(s, i) < s.len() ==> char_is_whitespace(s[word_end(s, i)]),
    decreases s.len() - i,
{
    if i < s.len() && !char_is_whitespace(s[i]) {
        lemma_word_end(s, i + 1);
    }
}

proof fn lemma_word_end_unique(s: Seq<char>, i: int, j: int)
    requires
        0 <= i <= j <= s.len(),
        forall|k: int| i <= k < j ==> !char_is_whitespace(#[trigger] s[k]),
        j == s.len() || char_is_whitespace(s[j]),
    ensures
        word_end(s, i) == j,
    decreases j - i,
{
    if i < j {
        lemma_word_end_unique(s, i + 1, j);
    }
}

/// The whitespace-separated words of `s[i..]` (`split_whitespace`).
pub open spec fn words_from(s: Seq<char>, i: int) -> Seq<Seq<char>>
    decreases s.len() - i, 1int,
{
    if i < 0 || i >= s.len() {
        Seq::empty()
    } else if char_is_whitespace(s[i]) {
        words_from(s, i + 1)
    } else {
        let j = word_end(s, i);
        if j <= i || j > s.len() {
            Seq::empty()
        } else {
            seq![s.subrange(i, j)] + words_from(s, j)
        }
    }
}

/// What a line typed at the prompt asks for, as its words.
pub open spec fn request_words(line: Seq<char>) -> Seq<Seq<char>> {
    words_from(line, 0)
}

/// The view of a request: its kind, and for a command its words.
pub open spec fn request_matches(r: MonitorRequest, line: Seq<char>) -> bool {
    let w = request_words(line);
    if w.len() == 0 {
        r is Empty
    } else if w[0] == "quit"@ || w[0] == "exit"@ {
        r is Quit
    } else if w[0] == "help"@ {
        r is Help
    } else {
        match r {
            MonitorRequest::Command(cmd, args) => cmd@ == w[0] && args@.len() + 1 == w.len()
                && forall|k: int| 0 <= k < args@.len() ==> #[trigger] args@[k]@ == w[k + 1],
            _ => false,
        }
    }
}

/// The whitespace-separated words of `line`.
pub fn split_words(line: &str) -> (ws: Vec<String>)
    ensures
        ws@.len() == request_words(line@).len(),
        forall|k: int| 0 <= k < ws@.len() ==> #[trigger] ws@[k]@ == request_words(line@)[k],
{
    let s = str_chars(line);
    let n = s.len();
    let mut ws: Vec<String> = Vec::new();
    let mut i: usize = 0;
    while i < n
        invariant
            s@ == line@,
            n == s.len(),
            i <= n,
            ws@.len() + words_from(s@, i as int).len() == words_from(s@, 0).len(),
            forall|k: int| 0 <= k < ws@.len() ==> #[trigger] ws@[k]@ == words_from(s@, 0)[k],
            forall|k: int|
                0 <= k < words_from(s@, i as int).len() ==> #[trigger] words_from(s@, i as int)[k]
                    == words_from(s@, 0)[ws@.len() + k],
        decreases n - i,
    {
        if is_whitespace(s[i]) {
            i = i + 1;
        } else {
            let mut j = i;
            while j < n && !is_whitespace(s[j])
                invariant
                    i <= j <= n == s.len(),
                    forall|k: int| i <= k < j ==> !char_is_whitespace(#[trigger] s@[k]),
                decreases n - j,
            {
                j = j + 1;
            }
            proof {
                lemma_word_end_unique(s@, i as int, j as int);
                let rest = words_from(s@, j as int);
                assert(words_from(s@, i as int) == seq![s@.subrange(i as int, j as int)] + rest);
                assert(words_from(s@, i as int)[0] == s@.subrange(i as int, j as int));
                assert forall|k: int| 0 <= k < rest.len() implies #[trigger] rest[k] == words_from(
                    s@,
                    0,
                )[ws@.len() + 1 + k] by {
                    assert(rest[k] == words_from(s@, i as int)[k + 1]);
                }
            }
            let w = substring(line, i, j);
            ws.push(w);
            i = j;
        }
    }
    ws
}

/// Reads a line typed at the prompt (see `request_matches`).
pub fn parse_request(line: &str) -> (r: MonitorRequest)
    ensures
        request_matches(r, line@),
{
    let mut ws = split_words(line);
    if ws.len() == 0 {
        return MonitorRequest::Empty;
    }
    let cmd = ws.remove(0);
    let c = str_chars(cmd.as_str());
    let n = c.len();
    assert(c@.subrange(0, n as int) =~= c@);
    if chars_eq_str(&c, 0, n, "quit") || chars_eq_str(&c, 0, n, "exit") {
        return MonitorRequest::Quit;
    }
    if chars_eq_str(&c, 0, n, "help") {
        return MonitorRequest::Help;
    }
    MonitorRequest::Command(cmd, ws)
}

/// The command names a device lists.
pub open spec fn names(cmds: Seq<String>) -> Seq<Seq<char>> {
    cmds.map_values(|c: String| c@)
}

/// Which device answers `cmd`: the first whose command list holds it.
pub fn find_device(commands: &Vec<Vec<String>>, cmd: &str) -> (r: Option<usize>)
    ensures
        match r {
            Some(d) => d < commands@.len() && names(commands@[d as int]@).contains(cmd@) && forall|
                e: int,
            | 0 <= e < d ==> !(#[trigger] names(commands@[e]@)).contains(cmd@),
            None => forall|e: int|
                0 <= e < commands@.len() ==> !(#[trigger] names(commands@[e]@)).contains(cmd@),
        },
{
    let want = String::from_str(cmd);
    let mut d: usize = 0;
    while d < commands.len()
        invariant
            d <= commands@.len(),
            want@ == cmd@,
            forall|e: int| 0 <= e < d ==> !(#[trigger] names(commands@[e]@)).contains(cmd@),
        decreases commands@.len() - d,
    {
        let list = &commands[d];
        let mut k: usize = 0;
        while k < list.len()
            invariant
                k <= list@.len(),
                want@ == cmd@,
                d < commands@.len(),
                *list == commands@[d as int],
                forall|e: int| 0 <= e < d ==> !(#[trigger] names(commands@[e]@)).contains(cmd@),
                forall|m: int| 0 <= m < k ==> (#[trigger] list@[m])@ != cmd@,
            decreases list@.len() - k,
        {
            if list[k] == want {
                proof {
                    assert(list@ == commands@[d as int]@);
                    assert(names(list@).len() == list@.len());
                    assert(names(list@)[k as int] == cmd@);
                    assert(names(commands@[d as int]@).contains(cmd@));
                }
                return Some(d);
            }
            k = k + 1;
        }
        proof {
            assert forall|m: int| 0 <= m < names(list@).len() implies names(list@)[m] != cmd@ by {
                assert(names(list@)[m] == list@[m]@);
            }
        }
        d = d + 1;
    }
    None
}

} // verus!
