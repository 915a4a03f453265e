//! Whether the hosts file blocks the servers the launcher and the game need. Some programs add
//! entries that send Mojang's and LiquidBounce's servers nowhere; the launcher names them so the
//! user can take them out.

use vstd::prelude::*;
use crate::utils::pattern::{is_white, is_white_char};
use crate::utils::text::{chars_of, push_str, split_spec, string_of, views};

verus! {

/// The domains whose blocking the launcher reports.
pub open spec fn blocked_domains() -> Seq<Seq<char>> {
    seq!["mojang.com"@, "minecraft.net"@, "liquidbounce.net"@, "ccbluex.net"@]
}

/// Where the hosts file is kept on the system drive.
pub open spec fn hosts_file_path() -> Seq<char> {
    "Windows\\System32\\drivers\\etc\\hosts"@
}

/// Where the hosts file is: on the system drive, `C:` unless the system names another.
pub fn hosts_path(system_drive: Option<String>) -> (r: String)
    ensures
        r@ == match system_drive {
            Some(d) => d@,
            None => "C:"@,
        } + "\\"@ + hosts_file_path(),
{
    let mut r = match system_drive {
        Some(d) => d,
        None => {
            let mut d = String::new();
            push_str(&mut d, "C:");
            d
        },
    };
    push_str(&mut r, "\\");
    push_str(&mut r, "Windows\\System32\\drivers\\etc\\hosts");
    r
}

/// A line without the `\r` of a `\r\n` ending.
pub open spec fn without_cr(line: Seq<char>) -> Seq<char> {
    if line.len() > 0 && line.last() == '\r' {
        line.drop_last()
    } else {
        line
    }
}

/// The lines of `s` as `str::lines` gives them: cut at `\n`, each ended by `\n` without a `\r`
/// before it, and no line after a final line break.
pub open spec fn lines_spec(s: Seq<char>) -> Seq<Seq<char>> {
    let parts = split_spec(s, '\n');
    let ended = parts.take(parts.len() - 1).map_values(|p: Seq<char>| without_cr(p));
    if parts.last().len() > 0 {
        ended.push(parts.last())
    } else {
        ended
    }
}

/// The words of `s`, the runs between white space, as `split_whitespace` gives them.
pub open spec fn words_spec(s: Seq<char>) -> Seq<Seq<char>>
    decreases s.len(),
{
    if s.len() == 0 {
        Seq::empty()
    } else {
        let front = words_spec(s.drop_last());
        let c = s.last();
        if is_white(c) {
            front
        } else if s.len() > 1 && !is_white(s.drop_last().last()) && front.len() > 0 {
            front.update(front.len() - 1, front.last().push(c))
        } else {
            front.push(seq![c])
        }
    }
}

/// Whether `needle` occurs in `s`.
pub open spec fn contains_spec(s: Seq<char>, needle: Seq<char>) -> bool {
    exists|i: int| 0 <= i && i + needle.len() <= s.len() && #[trigger] s.subrange(i, i + needle.len()) == needle
}

/// Whether a line of the hosts file redirects one of the blocked domains: it is no comment,
/// and its second word holds one of them.
pub open spec fn is_flagged(line: Seq<char>) -> bool {
    &&& !(line.len() > 0 && line[0] == '#')
    &&& words_spec(line).len() >= 2
    &&& exists|k: int| 0 <= k < blocked_domains().len() && contains_spec(
        words_spec(line)[1],
        #[trigger] blocked_domains()[k],
    )
}

/// The lines that are flagged, in order.
pub open spec fn flagged_spec(lines: Seq<Seq<char>>) -> Seq<Seq<char>>
    decreases lines.len(),
{
    if lines.len() == 0 {
        Seq::empty()
    } else if is_flagged(lines.last()) {
        flagged_spec(lines.drop_last()).push(lines.last())
    } else {
        flagged_spec(lines.drop_last())
    }
}

/// Whether `needle` occurs in `s`.
fn contains_chars(s: &Vec<char>, needle: &Vec<char>) -> (r: bool)
    ensures
        r == contains_spec(s@, needle@),
{
    if needle.len() > s.len() {
        return false;
    }
    if needle.len() == 0 {
        assert(s@.subrange(0int, 0int + needle@.len()) =~= needle@);
        return true;
    }
    let m = s.len() - needle.len();
    let mut i: usize = 0;
    while i <= m
        invariant
            needle.len() <= s.len(),
            needle.len() > 0,
            m == s.len() - needle.len(),
            i <= m + 1,
            forall|k: int| 0 <= k < i ==> #[trigger] s@.subrange(k, k + needle@.len()) != needle@,
        decreases m + 1 - i,
    {
        let mut j: usize = 0;
        let mut same = true;
        assert(s@.subrange(i as int, i as int) =~= needle@.take(0));
        while j < needle.len()
            invariant
                i + needle.len() <= s.len(),
                j <= needle.len(),
                same == (s@.subrange(i as int, i + j) == needle@.take(j as int)),
            decreases needle.len() - j,
        {
            if same && s[i + j] != needle[j] {
                assert(s@.subrange(i as int, i + j + 1)[j as int] != needle@.take(j + 1)[j as int]);
                same = false;
            } else if same {
                assert(s@.subrange(i as int, i + j + 1) =~= needle@.take(j + 1));
            } else {
                proof {
                    if s@.subrange(i as int, i + j + 1) == needle@.take(j + 1) {
                        assert(s@.subrange(i as int, i + j + 1).take(j as int) =~= s@.subrange(i as int, i + j));
                        assert(needle@.take(j + 1).take(j as int) =~= needle@.take(j as int));
                    }
                }
            }
            j = j + 1;
        }
        assert(needle@.take(needle@.len() as int) =~= needle@);
        if same {
            return true;
        }
        i = i + 1;
    }
    assert forall|k: int| 0 <= k && k + needle@.len() <= s@.len() implies #[trigger] s@.subrange(k, k + needle@.len()) != needle@ by {
        assert(k <= m);
    }
    false
}

/// The words of a line.
fn words(s: &Vec<char>) -> (r: Vec<Vec<char>>)
    ensures
        r@.len() == words_spec(s@).len(),
        forall|k: int| 0 <= k < r@.len() ==> #[trigger] r@[k]@ == words_spec(s@)[k],
{
    let mut r: Vec<Vec<char>> = Vec::new();
    let mut i: usize = 0;
    while i < s.len()
        invariant
            i <= s.len(),
            r@.len() == words_spec(s@.take(i as int)).len(),
            forall|k: int| 0 <= k < r@.len() ==> #[trigger] r@[k]@ == words_spec(s@.take(i as int))[k],
            i > 0 && !is_white(s@[i - 1]) ==> r@.len() > 0,
        decreases s.len() - i,
    {
        let c = s[i];
        let ghost t = s@.take(i + 1);
        let ghost front = words_spec(s@.take(i as int));
        assert(t.drop_last() =~= s@.take(i as int));
        assert(t.last() == c);
        if is_white_char(c) {
        } else if i > 0 && !is_white_char(s[i - 1]) && r.len() > 0 {
            assert(t.drop_last().last() == s@[i - 1]);
            let last = r.len() - 1;
            let mut word = r.remove(last);
            word.push(c);
            r.push(word);
            assert forall|k: int| 0 <= k < r@.len() implies #[trigger] r@[k]@ == words_spec(t)[k] by {
                if k < last {
                    assert(r@[k]@ == front[k]);
                }
            }
        } else {
            proof {
                if i > 0 {
                    assert(t.drop_last().last() == s@[i - 1]);
                }
            }
            let mut word: Vec<char> = Vec::new();
            word.push(c);
            assert(word@ =~= seq![c]);
            r.push(word);
        }
        i = i + 1;
    }
    assert(s@.take(s@.len() as int) =~= s@);
    r
}

/// Whether a line of the hosts file redirects one of the blocked domains.
fn flagged(line: &Vec<char>) -> (r: bool)
    ensures
        r == is_flagged(line@),
{
    if line.len() > 0 && line[0] == '#' {
        return false;
    }
    let w = words(line);
    if w.len() < 2 {
        return false;
    }
    let domain = &w[1];
    let domains: [&str; 4] = ["mojang.com", "minecraft.net", "liquidbounce.net", "ccbluex.net"];
    let mut k: usize = 0;
    while k < 4
        invariant
            k <= 4,
            w@.len() >= 2,
            w@.len() == words_spec(line@).len(),
            !(line@.len() > 0 && line@[0] == '#'),
            domain@ == words_spec(line@)[1],
            domains@.len() == 4,
            forall|j: int| 0 <= j < 4 ==> (#[trigger] domains@[j])@ == blocked_domains()[j],
            forall|j: int| 0 <= j < k ==> !contains_spec(domain@, #[trigger] blocked_domains()[j]),
        decreases 4 - k,
    {
        let entry = chars_of(domains[k]);
        if contains_chars(domain, &entry) {
            assert(contains_spec(words_spec(line@)[1], blocked_domains()[k as int]));
            return true;
        }
        k = k + 1;
    }
    false
}

/// The lines of the hosts file that block one of the servers, in order.
pub fn flagged_entries(content: &str) -> (r: Vec<String>)
    ensures
        views(r@) == flagged_spec(lines_spec(content@)),
{
    let chars = chars_of(content);
    let parts = crate::utils::text::split_chars(chars.as_slice(), '\n');
    let ghost all = split_spec(content@, '\n');
    proof {
        crate::utils::text::lemma_split_nonempty(content@, '\n');
    }
    let ghost lines = lines_spec(content@);
    let mut r: Vec<String> = Vec::new();
    let mut i: usize = 0;
    let n = parts.len();
    let ghost mut done: Seq<Seq<char>> = Seq::empty();
    while i < n
        invariant
            n == parts@.len(),
            n == all.len(),
            n >= 1,
            all == split_spec(content@, '\n'),
            forall|k: int| 0 <= k < n ==> #[trigger] parts@[k]@ == all[k],
            i <= n,
            done.len() == (if i < n { i as int } else if all.last().len() > 0 { n as int } else { n - 1 }),
            forall|k: int| 0 <= k < done.len() ==> #[trigger] done[k] == lines_spec(content@)[k],
            views(r@) == flagged_spec(done),
        decreases n - i,
    {
        let part = &parts[i];
        let mut line: Vec<char> = part.clone();
        let ended = i + 1 < n;
        if ended && line.len() > 0 && line[line.len() - 1] == '\r' {
            line.pop();
        }
        if !ended && line.len() == 0 {
            i = i + 1;
            continue;
        }
        let ghost before = done;
        proof {
            done = done.push(line@);
        }
        assert(done.drop_last() =~= before);
        if flagged(&line) {
            let ghost vb = views(r@);
            r.push(string_of(line.as_slice()));
            assert(views(r@) =~= vb.push(line@));
        }
        i = i + 1;
    }
    assert(done =~= lines_spec(content@));
    r
}

/// What the launcher tells when the hosts file blocks the servers: the entries to remove and
/// where the file is; nothing when no entry does.
pub fn hosts_message(flagged: &Vec<String>, path: &str) -> (r: Option<String>)
    ensures
        flagged@.len() == 0 ==> r is None,
        flagged@.len() > 0 ==> (r matches Some(message) && message@
            == "The hosts file has been modified to block the Minecraft authentication server.\n\nPlease remove the following entries from the hosts file:\n"@
            + joined_lines(views(flagged@)) + "\n\nThe file is located at:\n"@ + path@),
{
    if flagged.len() == 0 {
        return None;
    }
    let mut message = String::new();
    push_str(
        &mut message,
        "The hosts file has been modified to block the Minecraft authentication server.\n\nPlease remove the following entries from the hosts file:\n",
    );
    let ghost start = message@;
    let mut i: usize = 0;
    while i < flagged.len()
        invariant
            i <= flagged.len(),
            message@ == start + joined_lines(views(flagged@).take(i as int)),
        decreases flagged.len() - i,
    {
        assert(views(flagged@).take(i + 1).drop_last() =~= views(flagged@).take(i as int));
        if i > 0 {
            push_str(&mut message, "\n");
        }
        push_str(&mut message, flagged[i].as_str());
        i = i + 1;
        assert(i == 1 ==> views(flagged@).take(1)[0] == flagged@[0]@);
        assert(message@ =~= start + joined_lines(views(flagged@).take(i as int)));
    }
    assert(views(flagged@).take(flagged@.len() as int) =~= views(flagged@));
    push_str(&mut message, "\n\nThe file is located at:\n");
    push_str(&mut message, path);
    Some(message)
}

/// The lines joined by line feeds.
pub open spec fn joined_lines(lines: Seq<Seq<char>>) -> Seq<char>
    decreases lines.len(),
{
    if lines.len() == 0 {
        Seq::empty()
    } else if lines.len() == 1 {
        lines[0]
    } else {
        joined_lines(lines.drop_last()) + "\n"@ + lines.last()
    }
}

} // verus!
