//! Parsers of cgroup and `/proc` text.

use vstd::prelude::*;
use vstd::string::*;

use crate::text;

verus! {

/// Whether the cgroup at `path` is `leaf` itself or nested under it.
pub open spec fn at_or_under(path: Seq<char>, leaf: Seq<char>) -> bool {
    leaf.is_prefix_of(path) && (path.len() == leaf.len() || path[leaf.len() as int] == '/')
}

/// What follows `prefix` in the first of `ls` that starts with it.
pub open spec fn after_prefix(ls: Seq<Seq<char>>, prefix: Seq<char>) -> Option<Seq<char>>
    decreases ls.len(),
{
    if ls.len() == 0 {
        None
    } else if prefix.is_prefix_of(ls[0]) {
        Some(ls[0].skip(prefix.len() as int))
    } else {
        after_prefix(ls.skip(1), prefix)
    }
}

/// The unified-hierarchy path that the contents of `/proc/<pid>/cgroup` give: what follows `0::`
/// on the first line that starts with it.
pub open spec fn v2_relative_path(contents: Seq<char>) -> Option<Seq<char>> {
    after_prefix(text::lines(contents), "0::"@)
}

/// What the contents of `cgroup.events` say of `populated`.
pub open spec fn populated(contents: Seq<char>) -> Option<bool> {
    match after_prefix(text::lines(contents), "populated "@) {
        None => None,
        Some(rest) => if text::trim(rest) == "0"@ {
            Some(false)
        } else if text::trim(rest) == "1"@ {
            Some(true)
        } else {
            None
        },
    }
}

/// Where the second colon of `line` stands; the length of `line` where it has fewer than two.
pub open spec fn second_colon(line: Seq<char>) -> int {
    let first = text::first_index(line, ':');
    if first == line.len() {
        first
    } else {
        first + 1 + text::first_index(line.skip(first + 1), ':')
    }
}

/// What a summary says of one line of `/proc/self/cgroup`: the hierarchy and its controllers, and
/// nothing of a line of any other shape.
pub open spec fn line_controllers(line: Seq<char>) -> Seq<char> {
    if second_colon(line) < line.len() {
        line.take(second_colon(line))
    } else {
        "<unparseable line>"@
    }
}

/// The summaries of `ls`, a comma and a space between two.
pub open spec fn joined_controllers(ls: Seq<Seq<char>>) -> Seq<char>
    decreases ls.len(),
{
    if ls.len() == 0 {
        Seq::empty()
    } else if ls.len() == 1 {
        line_controllers(ls[0])
    } else {
        joined_controllers(ls.drop_last()) + ", "@ + line_controllers(ls.last())
    }
}

/// The summary of `/proc/self/cgroup`: one entry per line.
pub open spec fn controllers_summary(contents: Seq<char>) -> Seq<char> {
    if text::lines(contents).len() == 0 {
        "no controllers"@
    } else {
        joined_controllers(text::lines(contents))
    }
}

/// The last index at which `c` stands in `s`, or -1.
pub open spec fn last_index(s: Seq<char>, c: char) -> int
    decreases s.len(),
{
    if s.len() == 0 {
        -1
    } else if s.last() == c {
        s.len() - 1
    } else {
        last_index(s.drop_last(), c)
    }
}

/// The state letter in a line of `/proc/<pid>/stat`: the first character past the last `)` that is
/// not white space.
pub open spec fn proc_stat_state(stat: Seq<char>) -> Option<char> {
    let close = last_index(stat, ')');
    let tail = text::trim_start(stat.skip(close + 1));
    if close < 0 || tail.len() == 0 {
        None
    } else {
        Some(tail[0])
    }
}

/// The pids that the lines `ls` of a `cgroup.procs` name. A line that writes no pid names none.
pub open spec fn pids_of_lines(ls: Seq<Seq<char>>) -> Seq<i32>
    decreases ls.len(),
{
    if ls.len() == 0 {
        Seq::empty()
    } else {
        match text::parse_i32_spec(text::trim(ls[0])) {
            Some(pid) => seq![pid] + pids_of_lines(ls.skip(1)),
            None => pids_of_lines(ls.skip(1)),
        }
    }
}

/// Whether the cgroup at `path` is `leaf` itself or nested under it. Both are unified-hierarchy
/// paths as `/proc/<pid>/cgroup` prints them.
pub fn is_at_or_under(path: &str, leaf: &str) -> (r: bool)
    ensures
        r == at_or_under(path@, leaf@),
{
    let path = text::chars_of(path);
    let leaf = text::chars_of(leaf);
    assert(path@.skip(0) == path@);
    text::starts_at(&path, 0, &leaf) && (path.len() == leaf.len() || path[leaf.len()] == '/')
}

/// Where what follows `prefix` starts and ends, in the first line of `chars` that starts with it.
fn find_after_prefix(chars: &Vec<char>, prefix: &Vec<char>) -> (r: Option<(usize, usize)>)
    ensures
        match r {
            Some((from, to)) => from <= to <= chars@.len() && after_prefix(text::lines(chars@), prefix@)
                == Some(chars@.subrange(from as int, to as int)),
            None => after_prefix(text::lines(chars@), prefix@) is None,
        },
{
    let mut at: usize = 0;
    assert(chars@.skip(0) == chars@);
    while at < chars.len()
        invariant
            at <= chars@.len(),
            after_prefix(text::lines(chars@), prefix@) == after_prefix(
                text::lines(chars@.skip(at as int)),
                prefix@,
            ),
        decreases chars@.len() - at,
    {
        let (end, next) = text::next_line(chars, at);
        let ghost ls = text::lines(chars@.skip(at as int));
        let ghost line = chars@.subrange(at as int, end as int);
        proof {
            assert(ls[0] == line);
            assert(ls.skip(1) == text::lines(chars@.skip(next as int)));
        }
        if prefix.len() <= end - at && text::starts_at(chars, at, prefix) {
            proof {
                assert(prefix@ == line.take(prefix@.len() as int));
                assert(line.skip(prefix@.len() as int) == chars@.subrange(
                    at + prefix@.len(),
                    end as int,
                ));
            }
            return Some((at + prefix.len(), end));
        }
        proof {
            if prefix@.is_prefix_of(line) {
                assert(prefix@ == chars@.skip(at as int).take(prefix@.len() as int));
            }
        }
        at = next;
    }
    assert(chars@.skip(at as int) == Seq::<char>::empty());
    None
}

/// Parse the `0::` (cgroup v2 unified hierarchy) line from the contents of `/proc/self/cgroup`.
/// Returns the relative path, or `None` when no such line is present (v1-only or empty).
pub fn parse_v2_relative_path(proc_self_cgroup: &str) -> (r: Option<&str>)
    ensures
        match r {
            Some(path) => v2_relative_path(proc_self_cgroup@) == Some(path@),
            None => v2_relative_path(proc_self_cgroup@) is None,
        },
{
    let chars = text::chars_of(proc_self_cgroup);
    let prefix = text::chars_of("0::");
    match find_after_prefix(&chars, &prefix) {
        Some((from, to)) => Some(proc_self_cgroup.substring_char(from, to)),
        None => None,
    }
}

/// Whether `chars[from..to]` is the one character `c`.
fn is_just(chars: &Vec<char>, from: usize, to: usize, c: char) -> (r: bool)
    requires
        from <= to <= chars@.len(),
    ensures
        r == (chars@.subrange(from as int, to as int) == seq![c]),
{
    if to - from == 1 && chars[from] == c {
        assert(chars@.subrange(from as int, to as int) == seq![c]);
        true
    } else {
        proof {
            if chars@.subrange(from as int, to as int) == seq![c] {
                assert(chars@.subrange(from as int, to as int).len() == 1);
                assert(chars@.subrange(from as int, to as int)[0] == chars@[from as int]);
            }
        }
        false
    }
}

/// Parse the `populated` field out of the contents of a `cgroup.events` file. `None` means the
/// file had no `populated` line, or an unrecognized value: it could not be assessed.
pub fn parse_populated(contents: &str) -> (r: Option<bool>)
    ensures
        r == populated(contents@),
{
    let chars = text::chars_of(contents);
    let prefix = text::chars_of("populated ");
    proof {
        reveal_strlit("0");
        reveal_strlit("1");
        assert("0"@ == seq!['0']);
        assert("1"@ == seq!['1']);
        assert(seq!['0'][0] != seq!['1'][0]);
    }
    match find_after_prefix(&chars, &prefix) {
        None => None,
        Some((from, to)) => {
            let (from, to) = text::trim_range(&chars, from, to);
            if is_just(&chars, from, to, '0') {
                Some(false)
            } else if is_just(&chars, from, to, '1') {
                Some(true)
            } else {
                None
            }
        },
    }
}

/// Where the second colon of `chars[from..to]` stands, counted from `from`.
fn find_second_colon(chars: &Vec<char>, from: usize, to: usize) -> (r: usize)
    requires
        from <= to <= chars@.len(),
    ensures
        r == second_colon(chars@.subrange(from as int, to as int)),
        r <= to - from,
{
    let ghost line = chars@.subrange(from as int, to as int);
    let mut at: usize = from;
    while at < to && chars[at] != ':'
        invariant
            from <= at <= to <= chars@.len(),
            line == chars@.subrange(from as int, to as int),
            forall|i: int| 0 <= i < at - from ==> line[i] != ':',
        decreases to - at,
    {
        at += 1;
    }
    proof {
        text::lemma_first_index_is(line, ':', at - from);
    }
    if at == to {
        return at - from;
    }
    let first: usize = at;
    let ghost rest = line.skip(first - from + 1);
    at += 1;
    while at < to && chars[at] != ':'
        invariant
            from <= first < at <= to <= chars@.len(),
            rest == chars@.subrange(first + 1, to as int),
            forall|i: int| 0 <= i < at - first - 1 ==> rest[i] != ':',
        decreases to - at,
    {
        at += 1;
    }
    proof {
        text::lemma_first_index_is(rest, ':', at - first - 1);
    }
    at - from
}

/// Summarize the contents of `/proc/self/cgroup` for a degrade record: how many lines it had, and
/// the `<hierarchy-id>:<controller-list>` prefix of each, never the paths.
///
/// The paths are the caller's identity, and none of them is one this library touched. A line that
/// the documented `<id>:<controllers>:<path>` shape does not explain is reported as unparseable
/// rather than quoted: there is no telling which part of it is a path.
pub fn summarize_cgroup_controllers(proc_self_cgroup: &str) -> (r: (usize, String))
    ensures
        r.0 == text::lines(proc_self_cgroup@).len(),
        r.1@ == controllers_summary(proc_self_cgroup@),
{
    let chars = text::chars_of(proc_self_cgroup);
    let mut count: usize = 0;
    let mut rendered = String::new();
    let mut at: usize = 0;
    let ghost all = text::lines(chars@);
    assert(chars@.skip(0) == chars@);
    assert(all.take(0) == Seq::<Seq<char>>::empty());
    while at < chars.len()
        invariant
            chars@ == proc_self_cgroup@,
            at <= chars@.len(),
            count <= at,
            all == text::lines(chars@),
            count <= all.len(),
            all.skip(count as int) == text::lines(chars@.skip(at as int)),
            rendered@ == joined_controllers(all.take(count as int)),
        decreases chars@.len() - at,
    {
        let (end, next) = text::next_line(&chars, at);
        let ghost line = chars@.subrange(at as int, end as int);
        let ghost done = all.take(count + 1);
        proof {
            assert(all.skip(count as int).len() > 0);
            assert(all.skip(count as int)[0] == line);
            assert(all[count as int] == line);
            assert(all.skip(count + 1) == all.skip(count as int).skip(1));
            assert(all.skip(count as int).skip(1) == text::lines(chars@.skip(next as int)));
            assert(done.drop_last() == all.take(count as int));
            assert(done.last() == line);
        }
        if count > 0 {
            rendered.append(", ");
        }
        let colon = find_second_colon(&chars, at, end);
        if colon < end - at {
            rendered.append(proc_self_cgroup.substring_char(at, at + colon));
            assert(line.take(colon as int) == chars@.subrange(at as int, at + colon));
        } else {
            rendered.append("<unparseable line>");
        }
        proof {
            if count == 0 {
                assert(done.len() == 1);
                assert(done[0] == line);
                assert(rendered@ == line_controllers(line));
            }
        }
        count += 1;
        at = next;
    }
    proof {
        assert(chars@.skip(at as int) == Seq::<char>::empty());
        assert(all.skip(count as int).len() == 0);
        assert(all.take(count as int) == all);
    }
    if count == 0 {
        rendered.append("no controllers");
        assert(rendered@ == "no controllers"@);
    }
    (count, rendered)
}

/// Extract the process state letter (`R`, `S`, `Z`, …) from the contents of a `/proc/<pid>/stat`
/// line. `None` when the line is absent or malformed, never a guessed state.
///
/// Field 2 (`comm`) may itself contain spaces and parentheses, so the scan begins after the last
/// `)` of the line, where the kernel's fixed-shape tail starts; field 3 there is the state.
pub fn parse_proc_stat_state(stat: &str) -> (r: Option<char>)
    ensures
        r == proc_stat_state(stat@),
{
    let chars = text::chars_of(stat);
    let mut close: usize = chars.len();
    assert(chars@.take(close as int) == chars@);
    while close > 0 && chars[close - 1] != ')'
        invariant
            close <= chars@.len(),
            last_index(chars@, ')') == last_index(chars@.take(close as int), ')'),
        decreases close,
    {
        assert(chars@.take(close as int).drop_last() == chars@.take(close - 1));
        close -= 1;
    }
    if close == 0 {
        return None;
    }
    let ghost tail = chars@.skip(close as int);
    let mut at: usize = close;
    while at < chars.len() && text::white_space(chars[at])
        invariant
            close <= at <= chars@.len(),
            text::trim_start(tail) == text::trim_start(chars@.skip(at as int)),
        decreases chars@.len() - at,
    {
        assert(chars@.skip(at as int)[0] == chars@[at as int]);
        assert(chars@.skip(at as int).skip(1) == chars@.skip(at + 1));
        at += 1;
    }
    if at < chars.len() {
        assert(chars@.skip(at as int)[0] == chars@[at as int]);
        Some(chars[at])
    } else {
        None
    }
}

/// The pids that the contents of a `cgroup.procs` list, in their order.
pub fn parse_pids(procs: &str) -> (r: Vec<i32>)
    ensures
        r@ == pids_of_lines(text::lines(procs@)),
{
    let chars = text::chars_of(procs);
    let mut pids: Vec<i32> = Vec::new();
    let mut at: usize = 0;
    assert(chars@.skip(0) == chars@);
    while at < chars.len()
        invariant
            at <= chars@.len(),
            pids_of_lines(text::lines(chars@)) == pids@ + pids_of_lines(text::lines(chars@.skip(at as int))),
        decreases chars@.len() - at,
    {
        let (end, next) = text::next_line(&chars, at);
        let ghost ls = text::lines(chars@.skip(at as int));
        let ghost before = pids@;
        let (from, to) = text::trim_range(&chars, at, end);
        proof {
            assert(ls[0] == chars@.subrange(at as int, end as int));
            assert(ls.skip(1) == text::lines(chars@.skip(next as int)));
        }
        if let Some(pid) = text::parse_i32(&chars, from, to) {
            pids.push(pid);
            assert(pids@ == before + seq![pid]);
            assert(before + (seq![pid] + pids_of_lines(ls.skip(1))) == pids@ + pids_of_lines(
                ls.skip(1),
            ));
        }
        at = next;
    }
    assert(chars@.skip(at as int) == Seq::<char>::empty());
    assert(pids@ + pids_of_lines(text::lines(chars@.skip(at as int))) == pids@);
    pids
}

/// The contents of a `cgroup.procs` that lists `pids`: each in decimal, on a line of its own.
pub open spec fn procs_listing(pids: Seq<i32>) -> Seq<char>
    decreases pids.len(),
{
    if pids.len() == 0 {
        Seq::empty()
    } else {
        text::decimal(pids[0] as nat) + seq!['\n'] + procs_listing(pids.skip(1))
    }
}

/// Every pid that a `cgroup.procs` lists is read back, in order, and no other.
pub proof fn law_listed_pids_are_read_back(pids: Seq<i32>)
    requires
        forall|i: int| 0 <= i < pids.len() ==> #[trigger] pids[i] >= 0,
    ensures
        pids_of_lines(text::lines(procs_listing(pids))) == pids,
    decreases pids.len(),
{
    if pids.len() > 0 {
        let pid = pids[0];
        let number = text::decimal(pid as nat);
        let rest = procs_listing(pids.skip(1));
        let s = procs_listing(pids);
        text::lemma_decimal(pid as nat);
        assert(s =~= number + seq!['\n'] + rest);
        assert forall|i: int| 0 <= i < number.len() implies s[i] != '\n' by {
            assert(s[i] == number[i]);
        }
        assert(s[number.len() as int] == '\n');
        text::lemma_first_index_is(s, '\n', number.len() as int);
        assert(s.take(number.len() as int) =~= number);
        assert(s.skip(number.len() + 1int) =~= rest);
        assert('0' <= number[0] <= '9');
        assert('0' <= number.last() <= '9') by {
            assert(number.last() == number[number.len() - 1]);
        }
        assert(text::line_body(number) == number);
        let ls = text::lines(s);
        assert(ls == seq![number] + text::lines(rest));
        assert(ls[0] == number);
        assert(ls.skip(1) =~= text::lines(rest));
        assert(text::trim(number) == number);
        assert(text::parse_i32_spec(number) == Some(pid));
        law_listed_pids_are_read_back(pids.skip(1));
        assert(seq![pid] + pids.skip(1) =~= pids);
    } else {
        assert(text::lines(procs_listing(pids)).len() == 0);
        assert(pids =~= Seq::<i32>::empty());
    }
}

/// A leaf is inside itself, and so is every path that continues it past a slash; a path that
/// continues it otherwise names a sibling and is not.
pub proof fn law_inside_a_leaf(leaf: Seq<char>, rest: Seq<char>)
    ensures
        at_or_under(leaf, leaf),
        rest.len() > 0 ==> (at_or_under(leaf + rest, leaf) <==> rest[0] == '/'),
{
    assert(leaf == leaf.take(leaf.len() as int));
    assert(leaf == (leaf + rest).take(leaf.len() as int));
}

/// The summary of a well-formed line is the same whatever path it ends in.
pub proof fn law_summary_drops_the_path(id: Seq<char>, controllers: Seq<char>, path: Seq<char>)
    requires
        !id.contains(':'),
        !controllers.contains(':'),
    ensures
        line_controllers(id + seq![':'] + controllers + seq![':'] + path) == id + seq![':']
            + controllers,
{
    let line = id + seq![':'] + controllers + seq![':'] + path;
    assert forall|i: int| 0 <= i < id.len() implies line[i] != ':' by {
        assert(line[i] == id[i]);
        assert(id.contains(id[i]));
    }
    assert(line[id.len() as int] == ':');
    text::lemma_first_index_is(line, ':', id.len() as int);
    let rest = line.skip(id.len() + 1int);
    assert forall|i: int| 0 <= i < controllers.len() implies rest[i] != ':' by {
        assert(rest[i] == controllers[i]);
        assert(controllers.contains(controllers[i]));
    }
    assert(rest[controllers.len() as int] == ':');
    text::lemma_first_index_is(rest, ':', controllers.len() as int);
    assert(line.take(id.len() + 1int + controllers.len()) == id + seq![':'] + controllers);
}

/// A path is inside a leaf only where it is the leaf or goes on from it past a slash; and being inside
/// is an order: what is inside a leaf that is itself inside another is inside that one too, and two
/// that are inside each other are the same.
pub proof fn law_inside_is_an_order(a: Seq<char>, b: Seq<char>, c: Seq<char>)
    ensures
        at_or_under(a, b) && a != b ==> a.len() > b.len() && a.take(b.len() as int) == b && a[b.len() as int]
            == '/',
        at_or_under(a, b) && at_or_under(b, c) ==> at_or_under(a, c),
        at_or_under(a, b) && at_or_under(b, a) ==> a == b,
{
    if b.is_prefix_of(a) {
        assert(a.take(b.len() as int) =~= b);
        if a.len() == b.len() {
            assert(a =~= b);
        }
        if c.is_prefix_of(b) {
            assert(c =~= a.take(c.len() as int)) by {
                assert(b.take(c.len() as int) =~= c);
                assert forall|i: int| 0 <= i < c.len() implies c[i] == a[i] by {
                    assert(c[i] == b.take(c.len() as int)[i]);
                    assert(b[i] == a.take(b.len() as int)[i]);
                }
            }
            if b.len() > c.len() {
                assert(b[c.len() as int] == a.take(b.len() as int)[c.len() as int]);
            }
        }
    }
}

/// Whether `ls[i]` is the first of `ls` that starts with `prefix`.
pub open spec fn first_with(ls: Seq<Seq<char>>, prefix: Seq<char>, i: int) -> bool {
    &&& 0 <= i < ls.len()
    &&& prefix.is_prefix_of(ls[i])
    &&& forall|j: int| 0 <= j < i ==> !prefix.is_prefix_of(#[trigger] ls[j])
}

/// What is found behind a prefix is the rest of the first line that starts with it, and nothing is
/// found exactly where no line does.
pub proof fn law_the_first_line_with_the_prefix_counts(
    ls: Seq<Seq<char>>,
    prefix: Seq<char>,
    i: int,
)
    ensures
        first_with(ls, prefix, i) ==> (after_prefix(ls, prefix) matches Some(rest) && ls[i] == prefix
            + rest),
        after_prefix(ls, prefix) is None <==> forall|j: int|
            0 <= j < ls.len() ==> !prefix.is_prefix_of(#[trigger] ls[j]),
    decreases ls.len(),
{
    if ls.len() > 0 {
        let rest = ls.skip(1);
        if prefix.is_prefix_of(ls[0]) {
            assert(ls[0] =~= prefix + ls[0].skip(prefix.len() as int)) by {
                assert(ls[0].take(prefix.len() as int) =~= prefix);
                assert(ls[0] =~= ls[0].take(prefix.len() as int) + ls[0].skip(prefix.len() as int));
            }
            if first_with(ls, prefix, i) && i > 0 {
                assert(!prefix.is_prefix_of(ls[0]));
            }
        } else {
            if first_with(ls, prefix, i) {
                assert(i > 0);
                assert(rest[i - 1] == ls[i]);
                assert forall|j: int| 0 <= j < i - 1 implies !prefix.is_prefix_of(#[trigger] rest[j]) by {
                    assert(rest[j] == ls[j + 1]);
                }
            }
            law_the_first_line_with_the_prefix_counts(rest, prefix, i - 1);
            if forall|j: int| 0 <= j < rest.len() ==> !prefix.is_prefix_of(#[trigger] rest[j]) {
                assert forall|j: int| 0 <= j < ls.len() implies !prefix.is_prefix_of(
                    #[trigger] ls[j],
                ) by {
                    if j > 0 {
                        assert(rest[j - 1] == ls[j]);
                    }
                }
            }
            if forall|j: int| 0 <= j < ls.len() ==> !prefix.is_prefix_of(#[trigger] ls[j]) {
                assert forall|j: int| 0 <= j < rest.len() implies !prefix.is_prefix_of(
                    #[trigger] rest[j],
                ) by {
                    assert(rest[j] == ls[j + 1]);
                }
            }
        }
    }
}

/// The unified path that a file lists is read back, whatever other hierarchies it lists around it; and a
/// file that lists none gives none.
pub proof fn law_the_unified_path_is_read_back(
    above: Seq<Seq<char>>,
    path: Seq<char>,
    below: Seq<Seq<char>>,
    crlf: bool,
)
    requires
        text::is_line(path),
        forall|i: int| 0 <= i < above.len() ==> text::is_line(#[trigger] above[i]),
        forall|i: int| 0 <= i < below.len() ==> text::is_line(#[trigger] below[i]),
        forall|i: int| 0 <= i < above.len() ==> !seq!['0', ':', ':'].is_prefix_of(#[trigger] above[i]),
    ensures
        v2_relative_path(
            text::written_out(above + seq![seq!['0', ':', ':'] + path] + below, crlf),
        ) == Some(path),
        v2_relative_path(text::written_out(above, crlf)) is None,
{
    reveal_strlit("0::");
    let prefix = "0::"@;
    assert(prefix =~= seq!['0', ':', ':']);
    let line = prefix + path;
    let ls = above + seq![line] + below;
    assert(text::is_line(line)) by {
        if line.contains('\n') {
            let i = choose|i: int| 0 <= i < line.len() && line[i] == '\n';
            if i >= 3 {
                assert(path[i - 3] == '\n');
                assert(path.contains('\n'));
            }
        }
        if path.len() > 0 {
            assert(line.last() == path.last());
        } else {
            assert(line.last() == ':');
        }
    }
    assert forall|i: int| 0 <= i < ls.len() implies text::is_line(#[trigger] ls[i]) by {
        if i < above.len() {
            assert(ls[i] == above[i]);
        } else if i > above.len() {
            assert(ls[i] == below[i - above.len() - 1]);
        }
    }
    text::law_lines_are_read_back(ls, crlf);
    text::law_lines_are_read_back(above, crlf);
    let at = above.len() as int;
    assert(ls[at] == line);
    assert(line.take(3) =~= prefix);
    assert forall|j: int| 0 <= j < at implies !prefix.is_prefix_of(#[trigger] ls[j]) by {
        assert(ls[j] == above[j]);
    }
    assert(first_with(ls, prefix, at));
    law_the_first_line_with_the_prefix_counts(ls, prefix, at);
    law_the_first_line_with_the_prefix_counts(above, prefix, 0);
    let rest = after_prefix(ls, prefix)->0;
    assert(line =~= prefix + rest);
    assert(rest =~= line.skip(3));
    assert(path =~= line.skip(3));
}

/// What a file says of a leaf's population is read back: a one is populated and a zero is not, with
/// white space behind it or without, and anything else written there is no answer. Fields above it do
/// not matter, and a file without the field gives no answer.
pub proof fn law_the_population_is_read_back(
    above: Seq<Seq<char>>,
    value: Seq<char>,
    below: Seq<Seq<char>>,
    crlf: bool,
)
    requires
        text::is_line(value),
        forall|i: int| 0 <= i < above.len() ==> text::is_line(#[trigger] above[i]),
        forall|i: int| 0 <= i < below.len() ==> text::is_line(#[trigger] below[i]),
        forall|i: int| 0 <= i < above.len() ==> !"populated "@.is_prefix_of(#[trigger] above[i]),
    ensures
        ({
            let read = populated(
                text::written_out(above + seq!["populated "@ + value] + below, crlf),
            );
            &&& read == Some(true) <==> text::trim(value) == seq!['1']
            &&& read == Some(false) <==> text::trim(value) == seq!['0']
        }),
        populated(text::written_out(above, crlf)) is None,
{
    reveal_strlit("populated ");
    reveal_strlit("0");
    reveal_strlit("1");
    assert("0"@ =~= seq!['0']);
    assert("1"@ =~= seq!['1']);
    assert(seq!['0'][0] != seq!['1'][0]);
    let prefix = "populated "@;
    let line = prefix + value;
    let ls = above + seq![line] + below;
    assert(text::is_line(line)) by {
        if line.contains('\n') {
            let i = choose|i: int| 0 <= i < line.len() && line[i] == '\n';
            if i >= prefix.len() {
                assert(value[i - prefix.len()] == '\n');
                assert(value.contains('\n'));
            } else {
                assert(prefix[i] == '\n');
            }
        }
        if value.len() > 0 {
            assert(line.last() == value.last());
        } else {
            assert(line.last() == ' ');
        }
    }
    assert forall|i: int| 0 <= i < ls.len() implies text::is_line(#[trigger] ls[i]) by {
        if i < above.len() {
            assert(ls[i] == above[i]);
        } else if i > above.len() {
            assert(ls[i] == below[i - above.len() - 1]);
        }
    }
    text::law_lines_are_read_back(ls, crlf);
    text::law_lines_are_read_back(above, crlf);
    let at = above.len() as int;
    assert(ls[at] == line);
    assert(line.take(prefix.len() as int) =~= prefix);
    assert forall|j: int| 0 <= j < at implies !prefix.is_prefix_of(#[trigger] ls[j]) by {
        assert(ls[j] == above[j]);
    }
    assert(first_with(ls, prefix, at));
    law_the_first_line_with_the_prefix_counts(ls, prefix, at);
    law_the_first_line_with_the_prefix_counts(above, prefix, 0);
    let rest = after_prefix(ls, prefix)->0;
    assert(line =~= prefix + rest);
    assert(rest =~= line.skip(prefix.len() as int));
    assert(value =~= line.skip(prefix.len() as int));
}

/// A line without two colons gives nothing of itself away: all such lines are summarised alike. And a
/// file's summary is its lines' summaries, one after another, a comma and a space between.
pub proof fn law_a_summary_is_of_each_line(
    first: Seq<Seq<char>>,
    then: Seq<Seq<char>>,
    a: Seq<char>,
    b: Seq<char>,
)
    requires
        first.len() > 0,
        then.len() > 0,
    ensures
        !a.contains(':') ==> line_controllers(a) == "<unparseable line>"@,
        !a.contains(':') && !b.contains(':') ==> line_controllers(a + seq![':'] + b)
            == "<unparseable line>"@,
        joined_controllers(seq![a]) == line_controllers(a),
        joined_controllers(first + then) == joined_controllers(first) + ", "@ + joined_controllers(
            then,
        ),
    decreases then.len(),
{
    if !a.contains(':') {
        assert forall|i: int| 0 <= i < a.len() implies a[i] != ':' by {
            assert(a.contains(a[i]));
        }
        text::lemma_first_index_is(a, ':', a.len() as int);
        if !b.contains(':') {
            let line = a + seq![':'] + b;
            assert forall|i: int| 0 <= i < a.len() implies line[i] != ':' by {
                assert(line[i] == a[i]);
            }
            assert(line[a.len() as int] == ':');
            text::lemma_first_index_is(line, ':', a.len() as int);
            let rest = line.skip(a.len() + 1int);
            assert(rest =~= b);
            assert forall|i: int| 0 <= i < b.len() implies b[i] != ':' by {
                assert(b.contains(b[i]));
            }
            text::lemma_first_index_is(b, ':', b.len() as int);
        }
    }
    assert(seq![a][0] == a);
    let all = first + then;
    assert(all.last() == then.last());
    assert(all.drop_last() =~= first + then.drop_last());
    if then.len() == 1 {
        assert(all.drop_last() =~= first);
        assert(then[0] == then.last());
    } else {
        law_a_summary_is_of_each_line(first, then.drop_last(), a, b);
        let last = line_controllers(then.last());
        assert(joined_controllers(first) + ", "@ + joined_controllers(then.drop_last()) + ", "@ + last
            =~= joined_controllers(first) + ", "@ + (joined_controllers(then.drop_last()) + ", "@
            + last));
    }
}

/// A file with no line is said to name no controllers, and no other file is, by its lines.
pub proof fn law_an_empty_file_names_no_controllers(contents: Seq<char>)
    ensures
        contents.len() == 0 ==> controllers_summary(contents) == "no controllers"@,
        text::lines(contents).len() > 0 ==> controllers_summary(contents) == joined_controllers(
            text::lines(contents),
        ),
{
}

/// The state is the first letter past the last bracket and the white space behind it, whatever the
/// process is named: its name may hold brackets and spaces of its own. A line without a bracket, or
/// with nothing but white space behind the last one, has none.
pub proof fn law_the_state_follows_the_last_bracket(
    name: Seq<char>,
    gap: Seq<char>,
    letter: char,
    rest: Seq<char>,
)
    requires
        text::all_white(gap),
        !text::is_white_space(letter),
        letter != ')',
        !rest.contains(')'),
    ensures
        proc_stat_state(name + seq![')'] + gap + seq![letter] + rest) == Some(letter),
        proc_stat_state(name + seq![')'] + gap) is None,
        !name.contains(')') ==> proc_stat_state(name) is None,
{
    let tail = gap + seq![letter] + rest;
    let stat = name + seq![')'] + tail;
    assert(name + seq![')'] + gap + seq![letter] + rest =~= stat);
    assert forall|i: int| 0 <= i < gap.len() implies gap[i] != ')' by {
        assert(text::is_white_space(gap[i]));
    }
    assert forall|i: int| 0 <= i < tail.len() implies tail[i] != ')' by {
        if i < gap.len() {
            assert(tail[i] == gap[i]);
        } else if i > gap.len() {
            assert(tail[i] == rest[i - gap.len() - 1]);
            assert(rest.contains(rest[i - gap.len() - 1]));
        }
    }
    lemma_last_index(name, ')', tail);
    assert(stat.skip(name.len() + 1int) =~= tail);
    let k = text::lemma_trim_start(tail);
    assert(k == gap.len()) by {
        if k < gap.len() {
            assert(tail[k] == gap[k]);
        }
        if k > gap.len() {
            assert(tail.take(k)[gap.len() as int] == letter);
        }
    }
    assert(tail.skip(k)[0] == letter);
    let bare = name + seq![')'] + gap;
    lemma_last_index(name, ')', gap);
    assert(bare.skip(name.len() + 1int) =~= gap);
    let g = text::lemma_trim_start(gap);
    assert(g == gap.len()) by {
        if g < gap.len() {
            assert(text::is_white_space(gap[g]));
        }
    }
    if !name.contains(')') {
        lemma_no_last_index(name, ')');
    }
}

/// The last index of `c` is where it stands before a stretch without it.
proof fn lemma_last_index(before: Seq<char>, c: char, after: Seq<char>)
    requires
        forall|i: int| 0 <= i < after.len() ==> after[i] != c,
    ensures
        last_index(before + seq![c] + after, c) == before.len(),
    decreases after.len(),
{
    let s = before + seq![c] + after;
    if after.len() == 0 {
        assert(s.last() == c);
    } else {
        assert(s.last() == after.last());
        assert(after.last() == after[after.len() - 1]);
        assert(s.drop_last() =~= before + seq![c] + after.drop_last());
        lemma_last_index(before, c, after.drop_last());
    }
}

proof fn lemma_no_last_index(s: Seq<char>, c: char)
    requires
        !s.contains(c),
    ensures
        last_index(s, c) == -1,
    decreases s.len(),
{
    if s.len() > 0 {
        assert(s.contains(s[s.len() - 1]));
        assert(!s.drop_last().contains(c)) by {
            if s.drop_last().contains(c) {
                let i = choose|i: int| 0 <= i < s.drop_last().len() && s.drop_last()[i] == c;
                assert(s[i] == c);
            }
        }
        lemma_no_last_index(s.drop_last(), c);
    }
}

/// The pids of two runs of lines are those of the first and then those of the second, so a line that
/// writes no number costs none of the others; and a line that writes one, white space around it or
/// none, gives it.
pub proof fn law_each_line_gives_its_own_pid(
    first: Seq<Seq<char>>,
    then: Seq<Seq<char>>,
    line: Seq<char>,
)
    ensures
        pids_of_lines(first + then) == pids_of_lines(first) + pids_of_lines(then),
        pids_of_lines(seq![line]) == (match text::parse_i32_spec(text::trim(line)) {
            Some(pid) => seq![pid],
            None => Seq::<i32>::empty(),
        }),
    decreases first.len(),
{
    assert(seq![line].skip(1) =~= Seq::<Seq<char>>::empty());
    assert(pids_of_lines(Seq::<Seq<char>>::empty()) =~= Seq::<i32>::empty());
    assert(pids_of_lines(seq![line].skip(1)) =~= Seq::<i32>::empty());
    if first.len() == 0 {
        assert(first + then =~= then);
        assert(pids_of_lines(first) + pids_of_lines(then) =~= pids_of_lines(then));
    } else {
        law_each_line_gives_its_own_pid(first.skip(1), then, line);
        assert((first + then).skip(1) =~= first.skip(1) + then);
        assert((first + then)[0] == first[0]);
        let tail = pids_of_lines(first.skip(1)) + pids_of_lines(then);
        match text::parse_i32_spec(text::trim(first[0])) {
            Some(pid) => {
                assert(seq![pid] + tail =~= seq![pid] + pids_of_lines(first.skip(1)) + pids_of_lines(
                    then,
                ));
            },
            None => {},
        }
    }
}

} // verus!
