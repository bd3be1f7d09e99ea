//! The `nameserver` lines of a resolver configuration file.

use vstd::prelude::*;

use crate::text::{push_char, starts_with};

verus! {

/// A character with the Unicode White_Space property.
pub open spec fn is_ws(c: char) -> bool {
    ('\u{9}' <= c && c <= '\u{d}') || c == ' ' || c == '\u{85}' || c == '\u{a0}' || c == '\u{1680}'
        || ('\u{2000}' <= c && c <= '\u{200a}') || c == '\u{2028}' || c == '\u{2029}' || c
        == '\u{202f}' || c == '\u{205f}' || c == '\u{3000}'
}

/// Whether `c` is white space in the sense of `is_ws`.
pub fn is_whitespace(c: char) -> (r: bool)
    ensures
        r == is_ws(c),
{
    ('\u{9}' <= c && c <= '\u{d}') || c == ' ' || c == '\u{85}' || c == '\u{a0}' || c == '\u{1680}'
        || ('\u{2000}' <= c && c <= '\u{200a}') || c == '\u{2028}' || c == '\u{2029}' || c
        == '\u{202f}' || c == '\u{205f}' || c == '\u{3000}'
}

/// The maximal runs of non-white-space characters of `s`, in order.
pub open spec fn tokens(s: Seq<char>) -> Seq<Seq<char>>
    decreases s.len(),
{
    if s.len() == 0 {
        seq![]
    } else {
        let t = tokens(s.drop_last());
        let c = s.last();
        if is_ws(c) {
            t
        } else if s.len() > 1 && !is_ws(s[s.len() - 2]) {
            t.update(t.len() - 1, t.last().push(c))
        } else {
            t.push(seq![c])
        }
    }
}

/// The pieces of `s` between newline characters.
pub open spec fn split_lines(s: Seq<char>) -> Seq<Seq<char>>
    decreases s.len(),
{
    if s.len() == 0 {
        seq![seq![]]
    } else {
        let l = split_lines(s.drop_last());
        if s.last() == '\n' {
            l.push(seq![])
        } else {
            l.update(l.len() - 1, l.last().push(s.last()))
        }
    }
}

/// The server a line names: its second token, when its first token starts
/// with `nameserver`.
pub open spec fn nameserver_of(line: Seq<char>) -> Option<Seq<char>> {
    let t = tokens(line);
    if t.len() >= 2 && "nameserver"@.is_prefix_of(t[0]) {
        Some(t[1])
    } else {
        None
    }
}

/// The servers that the lines of `ls` name, in order.
pub open spec fn servers_of_lines(ls: Seq<Seq<char>>) -> Seq<Seq<char>>
    decreases ls.len(),
{
    if ls.len() == 0 {
        seq![]
    } else {
        match nameserver_of(ls.last()) {
            Some(t) => servers_of_lines(ls.drop_last()).push(t),
            None => servers_of_lines(ls.drop_last()),
        }
    }
}

/// The servers that a resolver file names, in file order.
pub open spec fn nameservers_of(contents: Seq<char>) -> Seq<Seq<char>> {
    servers_of_lines(split_lines(contents))
}

proof fn lemma_tokens_nonempty(s: Seq<char>)
    requires
        s.len() > 0,
        !is_ws(s.last()),
    ensures
        tokens(s).len() >= 1,
    decreases s.len(),
{
    if s.len() > 1 && !is_ws(s[s.len() - 2]) {
        let p = s.drop_last();
        assert(p.last() == s[s.len() - 2]);
        lemma_tokens_nonempty(p);
    }
}

/// Reads the servers of a resolver file: for each line whose first
/// white-space-separated token starts with `nameserver`, its second token.
pub fn parse_nameservers(contents: &str) -> (r: Vec<String>)
    ensures
        r@.len() == nameservers_of(contents@).len(),
        forall|i: int| 0 <= i < r@.len() ==> (#[trigger] r@[i])@ == nameservers_of(contents@)[i],
{
    let n = contents.unicode_len();
    let mut r: Vec<String> = Vec::new();
    let mut count: usize = 0;
    let mut first = String::new();
    let mut second = String::new();
    let mut in_token = false;
    let ghost mut done: Seq<Seq<char>> = seq![];
    let ghost mut cur: Seq<char> = seq![];
    let mut i: usize = 0;
    while i < n
        invariant
            n == contents@.len(),
            0 <= i <= n,
            split_lines(contents@.subrange(0, i as int)) == done.push(cur),
            r@.len() == servers_of_lines(done).len(),
            forall|k: int| 0 <= k < r@.len() ==> (#[trigger] r@[k])@ == servers_of_lines(done)[k],
            count == if tokens(cur).len() < 3 { tokens(cur).len() } else { 3 },
            in_token == (cur.len() > 0 && !is_ws(cur.last())),
            count >= 1 ==> first@ == tokens(cur)[0],
            count == 0 ==> first@.len() == 0,
            count <= 1 ==> second@.len() == 0,
            count >= 2 ==> second@ == tokens(cur)[1],
        decreases n - i,
    {
        let c = contents.get_char(i);
        let ghost pre = contents@.subrange(0, i as int);
        let ghost next = contents@.subrange(0, i + 1);
        assert(next.drop_last() =~= pre);
        assert(next.last() == c);
        if c == '\n' {
            let ghost line = cur;
            if count >= 2 && starts_with(first.as_str(), "nameserver") {
                r.push(second.clone());
            }
            proof {
                assert(done.push(line).drop_last() =~= done);
                done = done.push(line);
                cur = seq![];
            }
            count = 0;
            first = String::new();
            second = String::new();
            in_token = false;
        } else {
            let ghost old_cur = cur;
            proof {
                cur = cur.push(c);
                assert(cur.drop_last() =~= old_cur);
                if old_cur.len() > 0 {
                    assert(cur[cur.len() - 2] == old_cur.last());
                }
                if in_token {
                    lemma_tokens_nonempty(old_cur);
                }
            }
            if is_whitespace(c) {
                in_token = false;
            } else if !in_token {
                if count < 3 {
                    count = count + 1;
                }
                in_token = true;
                if count == 1 {
                    push_char(&mut first, c);
                    assert(first@ =~= tokens(cur)[0]);
                } else if count == 2 {
                    push_char(&mut second, c);
                    assert(second@ =~= tokens(cur)[1]);
                }
            } else {
                if count == 1 {
                    push_char(&mut first, c);
                } else if count == 2 {
                    push_char(&mut second, c);
                }
            }
        }
        i += 1;
    }
    assert(contents@.subrange(0, n as int) =~= contents@);
    if count >= 2 && starts_with(first.as_str(), "nameserver") {
        r.push(second.clone());
    }
    proof {
        assert(done.push(cur).drop_last() =~= done);
    }
    r
}


/// The first of the resolver files `files` that names a server.
pub open spec fn first_naming(files: Seq<Seq<char>>) -> Option<int> {
    if exists|i: int| 0 <= i < files.len() && #[trigger] nameservers_of(files[i]).len() > 0 {
        Some(choose|i: int| 0 <= i < files.len() && #[trigger] nameservers_of(files[i]).len() > 0 && forall|k: int|
            0 <= k < i ==> #[trigger] nameservers_of(files[k]).len() == 0)
    } else {
        None
    }
}

/// The servers of the first file of `files` (the contents of the resolver
/// files that could be read, in order of preference) that names any; none
/// when no file does, as an unreadable file counts as empty.
pub fn pick_nameservers(files: &Vec<String>) -> (r: Vec<String>)
    ensures
        match first_naming(files@.map_values(|f: String| f@)) {
            None => r@.len() == 0,
            Some(i) => r@.len() == nameservers_of(files@[i]@).len() && forall|k: int|
                0 <= k < r@.len() ==> (#[trigger] r@[k])@ == nameservers_of(files@[i]@)[k],
        },
{
    let ghost fs = files@.map_values(|f: String| f@);
    let mut i: usize = 0;
    while i < files.len()
        invariant
            0 <= i <= files@.len(),
            fs == files@.map_values(|f: String| f@),
            forall|k: int| 0 <= k < i ==> #[trigger] nameservers_of(fs[k]).len() == 0,
        decreases files@.len() - i,
    {
        let servers = parse_nameservers(files[i].as_str());
        if servers.len() > 0 {
            proof {
                assert(nameservers_of(fs[i as int]).len() > 0);
                let c = choose|c: int| 0 <= c < fs.len() && #[trigger] nameservers_of(fs[c]).len() > 0 && forall|k: int|
                    0 <= k < c ==> #[trigger] nameservers_of(fs[k]).len() == 0;
                if c < i {
                } else if c > i {
                    assert(nameservers_of(fs[i as int]).len() == 0);
                }
            }
            return servers;
        }
        i += 1;
    }
    Vec::new()
}

} // verus!
