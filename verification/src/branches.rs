//! Remote branch listing: parsing of the version-control client's
//! `ls-remote --heads` output, and the decision that turns a client
//! invocation's outcome into a branch list or a failure.
//!
//! Each output line has the shape `<object-id>\trefs/heads/<name>`; a line
//! with any other shape is ignored, and the `refs/heads/` prefix is dropped
//! from the name when present.

use vstd::prelude::*;
use crate::status::CmdOutput;
use crate::text::{chars_vec, string_of_range, trim_spec, trim_string};

verus! {

/// A remote branch descriptor. Last-commit information is never filled by
/// the listing itself.
pub struct Branch {
    pub name: String,
    pub last_commit: Option<String>,
}

/// Whether `c` occurs in `s`.
pub open spec fn has_char(s: Seq<char>, c: char) -> bool {
    exists|k: int| 0 <= k < s.len() && s[k] == c
}

/// The index of the first tab at or after `i`, if any.
pub open spec fn first_tab(l: Seq<char>, i: int) -> Option<int>
    decreases l.len() - i,
{
    if i < 0 || i >= l.len() {
        None
    } else if l[i] == '\t' {
        Some(i)
    } else {
        first_tab(l, i + 1)
    }
}

/// A line with one trailing carriage return removed, as the line splitter
/// of the standard library treats `\r\n` endings.
pub open spec fn strip_cr(l: Seq<char>) -> Seq<char> {
    if l.len() > 0 && l.last() == '\r' {
        l.take(l.len() - 1)
    } else {
        l
    }
}

/// A reference name with the `refs/heads/` prefix dropped when present.
pub open spec fn strip_heads(n: Seq<char>) -> Seq<char> {
    if "refs/heads/"@.is_prefix_of(n) {
        n.skip("refs/heads/"@.len() as int)
    } else {
        n
    }
}

/// The branch name a single output line contributes: the part after the
/// line's single tab, without the `refs/heads/` prefix. A line without a
/// tab, or with more than one, contributes nothing.
pub open spec fn branch_of_line(line: Seq<char>) -> Option<Seq<char>> {
    let l = strip_cr(line);
    match first_tab(l, 0) {
        Some(i) => {
            let name = l.subrange(i + 1, l.len() as int);
            if has_char(name, '\t') {
                None
            } else {
                Some(strip_heads(name))
            }
        },
        None => None,
    }
}

/// The lines of `s` from position `i` on, split at `\n`, with `cur` the
/// part of the current line read so far. A final segment is a line only
/// when it is nonempty.
pub open spec fn lines_acc(s: Seq<char>, i: int, cur: Seq<char>) -> Seq<Seq<char>>
    decreases s.len() - i,
{
    if i < 0 || i >= s.len() {
        if cur.len() == 0 {
            Seq::empty()
        } else {
            seq![cur]
        }
    } else if s[i] == '\n' {
        seq![cur] + lines_acc(s, i + 1, Seq::empty())
    } else {
        lines_acc(s, i + 1, cur.push(s[i]))
    }
}

/// The lines of `s`.
pub open spec fn lines_of(s: Seq<char>) -> Seq<Seq<char>> {
    lines_acc(s, 0, Seq::empty())
}

/// The branch names the given lines contribute, in order.
pub open spec fn branches_of_lines(ls: Seq<Seq<char>>) -> Seq<Seq<char>>
    decreases ls.len(),
{
    if ls.len() == 0 {
        Seq::empty()
    } else {
        match branch_of_line(ls[0]) {
            Some(n) => seq![n] + branches_of_lines(ls.skip(1)),
            None => branches_of_lines(ls.skip(1)),
        }
    }
}

/// Every branch name the listing output `s` holds, in output order.
pub open spec fn branch_names_spec(s: Seq<char>) -> Seq<Seq<char>> {
    branches_of_lines(lines_of(s))
}

proof fn lemma_first_tab_some(l: Seq<char>, i: int, j: int)
    requires
        0 <= i <= j < l.len(),
        l[j] == '\t',
        forall|k: int| i <= k < j ==> l[k] != '\t',
    ensures
        first_tab(l, i) == Some(j),
    decreases j - i,
{
    if i < j {
        lemma_first_tab_some(l, i + 1, j);
    }
}

proof fn lemma_first_tab_none(l: Seq<char>, i: int)
    requires
        0 <= i,
        forall|k: int| i <= k < l.len() ==> l[k] != '\t',
    ensures
        first_tab(l, i) is None,
    decreases l.len() - i,
{
    if i < l.len() {
        lemma_first_tab_none(l, i + 1);
    }
}

/// Whether the characters of `p` stand in `v` at position `at`.
fn matches_at(v: &Vec<char>, at: usize, p: &str) -> (r: bool)
    requires
        at <= v@.len(),
    ensures
        r == (at + p@.len() <= v@.len() && v@.subrange(
            at as int,
            at + p@.len(),
        ) == p@),
{
    let pn = p.unicode_len();
    if v.len() - at < pn {
        return false;
    }
    let mut k: usize = 0;
    while k < pn
        invariant
            0 <= k <= pn == p@.len(),
            at + pn <= v@.len() <= usize::MAX,
            forall|m: int| 0 <= m < k ==> v@[at + m] == p@[m],
        decreases pn - k,
    {
        if v[at + k] != p.get_char(k) {
            proof {
                assert(v@.subrange(at as int, at + p@.len())[k as int] != p@[k as int]);
            }
            return false;
        }
        k = k + 1;
    }
    proof {
        assert(v@.subrange(at as int, at + p@.len()) =~= p@);
    }
    true
}

/// The branch name one line of the listing contributes, the line being
/// `v[start..end]`.
fn line_branch(v: &Vec<char>, start: usize, end: usize) -> (r: Option<String>)
    requires
        start <= end <= v@.len(),
    ensures
        match r {
            Some(nm) => branch_of_line(v@.subrange(start as int, end as int)) == Some(nm@),
            None => branch_of_line(v@.subrange(start as int, end as int)) is None,
        },
{
    let ghost line: Seq<char> = v@.subrange(start as int, end as int);
    // Drop one trailing carriage return, as the standard line splitter does.
    let mut e: usize = end;
    if e > start && v[e - 1] == '\r' {
        e = e - 1;
    }
    let ghost l: Seq<char> = v@.subrange(start as int, e as int);
    proof {
        assert(strip_cr(line) =~= l);
    }
    // Find the line's first tab.
    let mut t: usize = start;
    while t < e && v[t] != '\t'
        invariant
            start <= t <= e <= v@.len(),
            forall|k: int| start <= k < t ==> v@[k] != '\t',
        decreases e - t,
    {
        t = t + 1;
    }
    if t == e {
        proof {
            assert(forall|k: int| 0 <= k < l.len() ==> l[k] == v@[start + k] && v@[start + k]
                != '\t');
            lemma_first_tab_none(l, 0);
        }
        return None;
    }
    proof {
        assert(l[t - start] == v@[t as int]);
        assert(forall|k: int| 0 <= k < t - start ==> #[trigger] l[k] == v@[start + k]);
        lemma_first_tab_some(l, 0, t - start);
    }
    let ghost name: Seq<char> = l.subrange(t - start + 1, l.len() as int);
    // A line with a second tab contributes nothing.
    let mut u: usize = t + 1;
    while u < e && v[u] != '\t'
        invariant
            t < u <= e <= v@.len(),
            forall|k: int| t < k < u ==> v@[k] != '\t',
        decreases e - u,
    {
        u = u + 1;
    }
    if u < e {
        proof {
            assert(name[u - t - 1] == v@[u as int]);
            assert(has_char(name, '\t'));
        }
        return None;
    }
    proof {
        assert(forall|k: int| 0 <= k < name.len() ==> #[trigger] name[k] == v@[t + 1 + k]);
        assert(!has_char(name, '\t'));
    }
    // Drop the refs/heads/ prefix when present.
    let p = "refs/heads/";
    let pn = p.unicode_len();
    let stripped = matches_at(v, t + 1, p);
    let from: usize = if stripped && e - (t + 1) >= pn {
        t + 1 + pn
    } else {
        t + 1
    };
    proof {
        if stripped && e - (t + 1) >= pn {
            assert(name.take(p@.len() as int) =~= v@.subrange(t + 1, t + 1 + p@.len()));
            assert(p@.is_prefix_of(name));
            assert(strip_heads(name) =~= v@.subrange(from as int, e as int));
        } else {
            if p@.is_prefix_of(name) {
                assert(name.take(p@.len() as int) == p@);
                assert(v@.subrange(t + 1, t + 1 + p@.len()) =~= name.take(p@.len() as int));
            }
            assert(!p@.is_prefix_of(name));
            assert(strip_heads(name) =~= v@.subrange(from as int, e as int));
        }
    }
    Some(string_of_range(v, from, e))
}

/// Every branch name in the listing output `s`, in output order.
pub fn parse_branch_names(s: &str) -> (r: Vec<String>)
    ensures
        r@.map_values(|n: String| n@) == branch_names_spec(s@),
{
    let v = chars_vec(s);
    let n = v.len();
    let mut out: Vec<String> = Vec::new();
    let mut line_start: usize = 0;
    let mut i: usize = 0;
    proof {
        assert(v@.subrange(0, 0) =~= Seq::<char>::empty());
        assert(out@.map_values(|nm: String| nm@) + branches_of_lines(lines_of(s@))
            =~= branches_of_lines(lines_of(s@)));
    }
    while i < n
        invariant
            0 <= line_start <= i <= n == v@.len(),
            v@ == s@,
            forall|k: int| line_start <= k < i ==> v@[k] != '\n',
            branch_names_spec(s@) == out@.map_values(|nm: String| nm@) + branches_of_lines(
                lines_acc(v@, i as int, v@.subrange(line_start as int, i as int)),
            ),
        decreases n - i,
    {
        let ghost cur: Seq<char> = v@.subrange(line_start as int, i as int);
        let ghost m: Seq<Seq<char>> = out@.map_values(|nm: String| nm@);
        if v[i] == '\n' {
            let ghost tail: Seq<Seq<char>> = lines_acc(v@, i + 1, Seq::<char>::empty());
            proof {
                assert(lines_acc(v@, i as int, cur) == seq![cur] + tail);
                assert((seq![cur] + tail)[0] == cur);
                assert((seq![cur] + tail).skip(1) =~= tail);
            }
            match line_branch(&v, line_start, i) {
                Some(nm) => {
                    proof {
                        assert(branches_of_lines(seq![cur] + tail) == seq![nm@]
                            + branches_of_lines(tail));
                    }
                    out.push(nm);
                    proof {
                        assert(out@.map_values(|x: String| x@) =~= m.push(nm@));
                        assert(m.push(nm@) + branches_of_lines(tail) =~= m + (seq![nm@]
                            + branches_of_lines(tail)));
                    }
                },
                None => {
                    proof {
                        assert(branches_of_lines(seq![cur] + tail) == branches_of_lines(tail));
                    }
                },
            }
            line_start = i + 1;
            i = i + 1;
            proof {
                assert(v@.subrange(line_start as int, i as int) =~= Seq::<char>::empty());
            }
        } else {
            proof {
                assert(lines_acc(v@, i as int, cur) == lines_acc(v@, i + 1, cur.push(v@[i as int])));
                assert(cur.push(v@[i as int]) =~= v@.subrange(line_start as int, i + 1));
            }
            i = i + 1;
        }
    }
    // The final segment is a line only when it is nonempty.
    let ghost cur: Seq<char> = v@.subrange(line_start as int, n as int);
    let ghost m: Seq<Seq<char>> = out@.map_values(|nm: String| nm@);
    if line_start < n {
        proof {
            assert(lines_acc(v@, n as int, cur) == seq![cur]);
            assert(seq![cur][0] == cur);
            assert(seq![cur].skip(1) =~= Seq::<Seq<char>>::empty());
        }
        match line_branch(&v, line_start, n) {
            Some(nm) => {
                proof {
                    assert(branches_of_lines(seq![cur]) == seq![nm@] + branches_of_lines(
                        Seq::<Seq<char>>::empty(),
                    ));
                }
                out.push(nm);
                proof {
                    assert(out@.map_values(|x: String| x@) =~= m.push(nm@));
                    assert(m.push(nm@) =~= m + (seq![nm@] + branches_of_lines(
                        Seq::<Seq<char>>::empty(),
                    )));
                }
            },
            None => {
                proof {
                    assert(branches_of_lines(seq![cur]) == branches_of_lines(seq![cur].skip(1)));
                    assert(branches_of_lines(Seq::<Seq<char>>::empty())
                        == Seq::<Seq<char>>::empty());
                    assert(m + branches_of_lines(seq![cur]) =~= m);
                }
            },
        }
    } else {
        proof {
            assert(cur.len() == 0);
            assert(lines_acc(v@, n as int, cur) == Seq::<Seq<char>>::empty());
            assert(m + Seq::<Seq<char>>::empty() =~= m);
        }
    }
    out
}

/// Turns the outcome of the listing invocation into the branch list. A
/// non-success exit fails with the client's trimmed stderr; a success that
/// yields zero branch names fails too — an empty listing signals a remote
/// or network problem, never a valid empty list.
pub fn fetch_branches(output: &CmdOutput) -> (r: Result<Vec<Branch>, String>)
    ensures
        match r {
            Ok(bs) => {
                &&& output.success
                &&& branch_names_spec(output.stdout@).len() > 0
                &&& bs@.map_values(|b: Branch| b.name@) == branch_names_spec(output.stdout@)
                &&& forall|k: int| 0 <= k < bs@.len() ==> (#[trigger] bs@[k]).last_commit is None
            },
            Err(m) => {
                &&& !output.success ==> m@ == "Git error: "@ + trim_spec(output.stderr@)
                &&& output.success ==> branch_names_spec(output.stdout@).len() == 0 && m@
                    == "No branches found"@
            },
        },
{
    if !output.success {
        let mut msg = String::from_str("Git error: ");
        let trimmed = trim_string(output.stderr.as_str());
        msg.append(trimmed.as_str());
        return Err(msg);
    }
    let names = parse_branch_names(output.stdout.as_str());
    if names.len() == 0 {
        proof {
            assert(branch_names_spec(output.stdout@).len() == 0);
        }
        return Err(String::from_str("No branches found"));
    }
    let mut out: Vec<Branch> = Vec::new();
    let mut i: usize = 0;
    let ghost all: Seq<Seq<char>> = names@.map_values(|n: String| n@);
    while i < names.len()
        invariant
            0 <= i <= names@.len(),
            all == names@.map_values(|n: String| n@),
            out@.map_values(|b: Branch| b.name@) =~= all.take(i as int),
            forall|k: int| 0 <= k < out@.len() ==> (#[trigger] out@[k]).last_commit is None,
        decreases names@.len() - i,
    {
        let nm = names[i].clone();
        proof {
            assert(nm@ == all[i as int]);
        }
        let ghost po: Seq<Branch> = out@;
        let b = Branch { name: nm, last_commit: None };
        let ghost gb: Branch = b;
        out.push(b);
        i = i + 1;
        proof {
            assert(out@ == po.push(gb));
            assert(gb.name@ == all[i - 1]);
            assert(out@.map_values(|b: Branch| b.name@) =~= po.map_values(
                |b: Branch| b.name@,
            ).push(gb.name@));
            assert(all.take(i as int) =~= po.map_values(|b: Branch| b.name@).push(all[i - 1]));
        }
    }
    proof {
        assert(all.take(all.len() as int) =~= all);
    }
    Ok(out)
}

} // verus!
