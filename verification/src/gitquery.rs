use vstd::prelude::*;
use crate::strutil::{
    all_digits, dec_val, lex_le, push_char, spec_starts_with, spec_trim, starts_with, str_eq,
    trim,
};
use crate::model::BranchInfo;

verus! {

// ---------------------------------------------------------------------------
// Pure pieces of the git introspection bridge: path normalization,
// status letters, remote selection, repository-name parsing, error
// detail selection, and the orders the listings are reported in. The
// repository reads themselves happen outside, against the library-backed
// git bindings; only their plain-value results pass through here.
// ---------------------------------------------------------------------------

/// The path with every backslash turned forward.
pub open spec fn spec_normalize_git_path(p: Seq<char>) -> Seq<char> {
    p.map_values(
        |c: char|
            if c == '\\' {
                '/'
            } else {
                c
            },
    )
}

/// Normalizes a repository-relative path to forward slashes.
pub fn normalize_git_path(path: &str) -> (r: String)
    ensures
        r@ == spec_normalize_git_path(path@),
{
    let len = path.unicode_len();
    let mut r = String::new();
    let mut i: usize = 0;
    while i < len
        invariant
            len == path@.len(),
            i <= len,
            r@.len() == i,
            forall|j: int| 0 <= j < i ==> r@[j] == spec_normalize_git_path(path@)[j],
        decreases len - i,
    {
        let c = path.get_char(i);
        if c == '\\' {
            push_char(&mut r, '/');
        } else {
            push_char(&mut r, c);
        }
        i += 1;
    }
    proof {
        assert(r@ =~= spec_normalize_git_path(path@));
    }
    r
}

/// The status letter of one file, from the flags its index and working
/// tree carry: added, modified, deleted, renamed, type-changed, or none.
pub fn status_code_for(
    new_file: bool,
    modified: bool,
    deleted: bool,
    renamed: bool,
    typechange: bool,
) -> (r: String)
    ensures
        new_file ==> r@ == "A"@,
        !new_file && modified ==> r@ == "M"@,
        !new_file && !modified && deleted ==> r@ == "D"@,
        !new_file && !modified && !deleted && renamed ==> r@ == "R"@,
        !new_file && !modified && !deleted && !renamed && typechange ==> r@ == "T"@,
        !new_file && !modified && !deleted && !renamed && !typechange ==> r@ == "--"@,
{
    if new_file {
        String::from_str("A")
    } else if modified {
        String::from_str("M")
    } else if deleted {
        String::from_str("D")
    } else if renamed {
        String::from_str("R")
    } else if typechange {
        String::from_str("T")
    } else {
        String::from_str("--")
    }
}

/// The first named remote, in listing order.
pub open spec fn first_some(remotes: Seq<Option<String>>) -> Option<String>
    decreases remotes.len(),
{
    if remotes.len() == 0 {
        None
    } else {
        match remotes[0] {
            Some(s) => Some(s),
            None => first_some(remotes.drop_first()),
        }
    }
}

pub open spec fn has_origin(remotes: Seq<Option<String>>) -> bool {
    exists|i: int|
        0 <= i < remotes.len() && ((#[trigger] remotes[i]) matches Some(s) && s@ == "origin"@)
}

/// Picks the remote the queries go through: "origin" when present, else
/// the first named remote, else none. An empty name counts as none.
pub fn pick_remote_name(remotes: &Vec<Option<String>>) -> (r: Option<String>)
    ensures
        has_origin(remotes@) ==> (r matches Some(s) && s@ == "origin"@),
        !has_origin(remotes@) ==> match first_some(remotes@) {
            Some(f) => if f@.len() == 0 {
                r is None
            } else {
                r matches Some(s) && s@ == f@
            },
            None => r is None,
        },
{
    let mut i: usize = 0;
    while i < remotes.len()
        invariant
            i <= remotes@.len(),
            forall|j: int|
                0 <= j < i ==> !((#[trigger] remotes@[j]) matches Some(s) && s@ == "origin"@),
        decreases remotes@.len() - i,
    {
        match &remotes[i] {
            Option::Some(s) => {
                if str_eq(s.as_str(), "origin") {
                    return Some(String::from_str("origin"));
                }
            },
            Option::None => {},
        }
        i += 1;
    }
    proof {
        assert(!has_origin(remotes@)) by {
            if has_origin(remotes@) {
                let i0 = choose|i0: int|
                    0 <= i0 < remotes@.len() && ((#[trigger] remotes@[i0]) matches Some(s) && s@
                        == "origin"@);
                assert(false);
            }
        }
        assert(remotes@.subrange(0, remotes@.len() as int) =~= remotes@);
    }
    let mut k: usize = 0;
    while k < remotes.len()
        invariant
            k <= remotes@.len(),
            !has_origin(remotes@),
            forall|j: int| 0 <= j < k ==> (#[trigger] remotes@[j]) is None,
            first_some(remotes@) == first_some(remotes@.subrange(k as int, remotes@.len() as int)),
        decreases remotes@.len() - k,
    {
        let ghost rest = remotes@.subrange(k as int, remotes@.len() as int);
        proof {
            assert(rest[0] == remotes@[k as int]);
            assert(rest.drop_first() =~= remotes@.subrange(k + 1, remotes@.len() as int));
        }
        match &remotes[k] {
            Option::Some(s) => {
                if s.unicode_len() == 0 {
                    return None;
                }
                return Some(s.clone());
            },
            Option::None => {},
        }
        k += 1;
    }
    proof {
        assert(remotes@.subrange(remotes@.len() as int, remotes@.len() as int).len() == 0);
    }
    None
}

/// Selects what a failed command reports: its error stream, else its
/// output stream, else a fixed message — each trimmed.
pub fn command_error_detail(stderr: &str, stdout: &str, generic: &str) -> (r: String)
    ensures
        spec_trim(stderr@).len() > 0 ==> r@ == spec_trim(stderr@),
        spec_trim(stderr@).len() == 0 && spec_trim(stdout@).len() > 0 ==> r@ == spec_trim(
            stdout@,
        ),
        spec_trim(stderr@).len() == 0 && spec_trim(stdout@).len() == 0 ==> r@ == generic@,
{
    let e = trim(stderr);
    if e.unicode_len() > 0 {
        return e;
    }
    let o = trim(stdout);
    if o.unicode_len() > 0 {
        return o;
    }
    String::from_str(generic)
}

/// The issue-search text with every space turned into a plus.
pub open spec fn plussed(s: Seq<char>) -> Seq<char> {
    s.map_values(
        |c: char|
            if c == ' ' {
                '+'
            } else {
                c
            },
    )
}

/// The search query counting a repository's open issues.
pub fn github_search_query(repo: &str) -> (r: String)
    ensures
        r@ == plussed("repo:"@ + repo@ + " is:issue is:open"@),
{
    let mut s = String::from_str("repo:");
    s.append(repo);
    s.append(" is:issue is:open");
    let ghost raw = "repo:"@ + repo@ + " is:issue is:open"@;
    let len = s.unicode_len();
    let mut r = String::new();
    let mut i: usize = 0;
    while i < len
        invariant
            s@ == raw,
            len == raw.len(),
            i <= len,
            r@.len() == i,
            forall|j: int| 0 <= j < i ==> r@[j] == plussed(raw)[j],
        decreases len - i,
    {
        let c = s.get_char(i);
        if c == ' ' {
            push_char(&mut r, '+');
        } else {
            push_char(&mut r, c);
        }
        i += 1;
    }
    proof {
        assert(r@ =~= plussed(raw));
    }
    r
}

/// The issue count reported to clients: the tracker's own total when its
/// answer reads as a number, else how many issues the listing returned.
pub fn resolve_issue_total(total_output: &str, listed: u64) -> (r: u64)
    ensures
        ({
            let t = spec_trim(total_output@);
            if t.len() > 0 && all_digits(t) && dec_val(t) <= u64::MAX {
                r == dec_val(t)
            } else {
                r == listed
            }
        }),
{
    let t = trim(total_output);
    match crate::strutil::parse_u64(t.as_str()) {
        Some(v) => v,
        None => listed,
    }
}

/// The position of the first occurrence of `p`, if any.
pub open spec fn spec_find(s: Seq<char>, p: Seq<char>) -> Option<int>
    decreases s.len(),
{
    if spec_starts_with(s, p) {
        Some(0int)
    } else if s.len() == 0 {
        None
    } else {
        match spec_find(s.drop_first(), p) {
            Some(i) => Some(i + 1),
            None => None,
        }
    }
}

proof fn lemma_find_hit(s: Seq<char>, p: Seq<char>)
    requires
        spec_find(s, p) is Some,
    ensures
        0 <= spec_find(s, p)->Some_0,
        spec_find(s, p)->Some_0 + p.len() <= s.len(),
        spec_starts_with(
            s.subrange(spec_find(s, p)->Some_0, s.len() as int),
            p,
        ),
    decreases s.len(),
{
    if spec_starts_with(s, p) {
        assert(s.subrange(0, s.len() as int) =~= s);
    } else {
        lemma_find_hit(s.drop_first(), p);
        let i = spec_find(s.drop_first(), p)->Some_0;
        assert(s.drop_first().subrange(i, s.drop_first().len() as int) =~= s.subrange(
            i + 1,
            s.len() as int,
        ));
    }
}

fn find_sub(s: &str, p: &str) -> (r: Option<usize>)
    ensures
        match r {
            Some(i) => i <= s@.len() && spec_find(s@, p@) == Some(i as int),
            None => spec_find(s@, p@) is None,
        },
{
    let len = s.unicode_len();
    let mut i: usize = 0;
    proof {
        assert(s@.subrange(0, len as int) =~= s@);
    }
    loop
        invariant
            len == s@.len(),
            i <= len,
            spec_find(s@, p@) == (match spec_find(s@.subrange(i as int, len as int), p@) {
                Some(k) => Some(i + k),
                None => None::<int>,
            }),
        decreases len - i,
    {
        let ghost suffix = s@.subrange(i as int, len as int);
        let sub = s.substring_char(i, len);
        if starts_with(sub, p) {
            proof {
                assert(spec_find(suffix, p@) == Some(0int));
            }
            return Some(i);
        }
        proof {
            assert(!spec_starts_with(suffix, p@));
        }
        if i == len {
            proof {
                assert(suffix.len() == 0);
            }
            return None;
        }
        proof {
            assert(suffix.drop_first() =~= s@.subrange(i + 1, len as int));
        }
        i += 1;
    }
}

/// What follows the last repeated ".git" suffix.
pub open spec fn strip_git_suffix(s: Seq<char>) -> Seq<char>
    decreases s.len(),
{
    if s.len() >= 4 && s.subrange(s.len() - 4, s.len() as int) == ".git"@ {
        strip_git_suffix(s.subrange(0, s.len() - 4))
    } else {
        s
    }
}

/// Where the repository path starts inside a trimmed remote address, if
/// the address points at the issue tracker's host.
pub open spec fn marker_tail(t: Seq<char>) -> Option<Seq<char>> {
    if spec_starts_with(t, "git@github.com:"@) {
        Some(t.subrange("git@github.com:"@.len() as int, t.len() as int))
    } else if spec_starts_with(t, "ssh://git@github.com/"@) {
        Some(t.subrange("ssh://git@github.com/"@.len() as int, t.len() as int))
    } else {
        match spec_find(t, "github.com/"@) {
            Some(i) => Some(t.subrange(i + "github.com/"@.len(), t.len() as int)),
            None => None,
        }
    }
}

/// The repository a remote address names: what follows the host marker,
/// without trailing ".git" repetitions or slashes; none when the address
/// is blank, points elsewhere, or nothing is left.
pub open spec fn spec_parse_github_repo(u: Seq<char>) -> Option<Seq<char>> {
    let t = spec_trim(u);
    if t.len() == 0 {
        None
    } else {
        match marker_tail(t) {
            None => None,
            Some(tail) => {
                let path = crate::registry::strip_trailing_slashes(strip_git_suffix(tail));
                if path.len() == 0 {
                    None
                } else {
                    Some(path)
                }
            },
        }
    }
}

/// Where the text ends once trailing ".git" repetitions go, scanning
/// only the piece from `start` to `end0`.
fn strip_git_end(t: &str, start: usize, end0: usize) -> (e: usize)
    requires
        start <= end0 <= t@.len(),
    ensures
        start <= e <= end0,
        strip_git_suffix(t@.subrange(start as int, end0 as int)) == t@.subrange(
            start as int,
            e as int,
        ),
{
    proof {
        reveal_strlit(".git");
        assert(".git"@.len() == 4);
        assert(".git"@[0] == '.' && ".git"@[1] == 'g' && ".git"@[2] == 'i' && ".git"@[3] == 't');
    }
    let mut e: usize = end0;
    loop
        invariant_except_break
            start <= e <= end0 <= t@.len(),
            ".git"@.len() == 4,
            ".git"@[0] == '.' && ".git"@[1] == 'g' && ".git"@[2] == 'i' && ".git"@[3] == 't',
            strip_git_suffix(t@.subrange(start as int, end0 as int)) == strip_git_suffix(
                t@.subrange(start as int, e as int),
            ),
        ensures
            start <= e <= end0,
            strip_git_suffix(t@.subrange(start as int, end0 as int)) == t@.subrange(
                start as int,
                e as int,
            ),
        decreases e,
    {
        let ghost cur = t@.subrange(start as int, e as int);
        let mut matched = false;
        if e >= 4 {
            if e - 4 >= start {
                if t.get_char(e - 4) == '.' && t.get_char(e - 3) == 'g' && t.get_char(e - 2)
                    == 'i' && t.get_char(e - 1) == 't' {
                    matched = true;
                }
            }
        }
        if matched {
            proof {
                assert(cur.subrange(cur.len() - 4, cur.len() as int) =~= ".git"@);
                assert(cur.subrange(0, cur.len() - 4) =~= t@.subrange(start as int, e - 4));
            }
            e -= 4;
        } else {
            proof {
                if cur.len() >= 4 {
                    assert(cur.subrange(cur.len() - 4, cur.len() as int)[0] == t@[e - 4]);
                    assert(cur.subrange(cur.len() - 4, cur.len() as int)[1] == t@[e - 3]);
                    assert(cur.subrange(cur.len() - 4, cur.len() as int)[2] == t@[e - 2]);
                    assert(cur.subrange(cur.len() - 4, cur.len() as int)[3] == t@[e - 1]);
                    assert(cur.subrange(cur.len() - 4, cur.len() as int) != ".git"@);
                }
                assert(strip_git_suffix(cur) == cur);
            }
            break;
        }
    }
    e
}

/// Where the text ends once trailing slashes go, scanning only the piece
/// from `start` to `end0`.
fn strip_slash_end(t: &str, start: usize, end0: usize) -> (e: usize)
    requires
        start <= end0 <= t@.len(),
    ensures
        start <= e <= end0,
        crate::registry::strip_trailing_slashes(t@.subrange(start as int, end0 as int))
            == t@.subrange(start as int, e as int),
{
    let mut e: usize = end0;
    loop
        invariant_except_break
            start <= e <= end0 <= t@.len(),
            crate::registry::strip_trailing_slashes(t@.subrange(start as int, end0 as int))
                == crate::registry::strip_trailing_slashes(t@.subrange(start as int, e as int)),
        ensures
            start <= e <= end0,
            crate::registry::strip_trailing_slashes(t@.subrange(start as int, end0 as int))
                == t@.subrange(start as int, e as int),
        decreases e,
    {
        let ghost cur = t@.subrange(start as int, e as int);
        let mut slash = false;
        if e > start {
            if t.get_char(e - 1) == '/' {
                slash = true;
            }
        }
        if slash {
            proof {
                assert(cur.last() == '/');
                assert(cur.drop_last() =~= t@.subrange(start as int, e - 1));
            }
            e -= 1;
        } else {
            proof {
                assert(crate::registry::strip_trailing_slashes(cur) == cur);
            }
            break;
        }
    }
    e
}

/// The characters from `start` to `end`, copied out.
fn copy_range(t: &str, start: usize, end: usize) -> (r: String)
    requires
        start <= end <= t@.len(),
    ensures
        r@ == t@.subrange(start as int, end as int),
{
    let mut out = String::new();
    let mut i: usize = start;
    while i < end
        invariant
            start <= i <= end <= t@.len(),
            out@ =~= t@.subrange(start as int, i as int),
        decreases end - i,
    {
        push_char(&mut out, t.get_char(i));
        i += 1;
        assert(t@.subrange(start as int, i - 1).push(t@[i - 1]) =~= t@.subrange(
            start as int,
            i as int,
        ));
    }
    proof {
        assert(out@ =~= t@.subrange(start as int, end as int));
    }
    out
}

/// Reads the repository name out of a remote address.
pub fn parse_github_repo(remote_url: &str) -> (r: Option<String>)
    ensures
        r is Some <==> spec_parse_github_repo(remote_url@) is Some,
        r matches Some(s) ==> s@ == spec_parse_github_repo(remote_url@)->Some_0,
{
    let t = trim(remote_url);
    let tlen = t.unicode_len();
    if tlen == 0 {
        return Option::None;
    }
    let tail_start: usize;
    if starts_with(t.as_str(), "git@github.com:") {
        tail_start = "git@github.com:".unicode_len();
    } else if starts_with(t.as_str(), "ssh://git@github.com/") {
        tail_start = "ssh://git@github.com/".unicode_len();
    } else {
        match find_sub(t.as_str(), "github.com/") {
            Option::Some(i) => {
                proof {
                    lemma_find_hit(t@, "github.com/"@);
                }
                tail_start = i + "github.com/".unicode_len();
            },
            Option::None => {
                return Option::None;
            },
        }
    }
    let ghost tail = t@.subrange(tail_start as int, tlen as int);
    proof {
        assert(marker_tail(t@) == Some(tail));
    }
    let e = strip_git_end(t.as_str(), tail_start, tlen);
    let e2 = strip_slash_end(t.as_str(), tail_start, e);
    let ghost after_git = t@.subrange(tail_start as int, e as int);
    let ghost path = t@.subrange(tail_start as int, e2 as int);
    proof {
        assert(crate::registry::strip_trailing_slashes(strip_git_suffix(tail)) == path);
    }
    if e2 == tail_start {
        return Option::None;
    }
    let out = copy_range(t.as_str(), tail_start, e2);
    Option::Some(out)
}

/// Branch listings come newest first.
pub fn sort_branches(v: &mut Vec<BranchInfo>)
    ensures
        final(v)@.len() == old(v)@.len(),
        final(v)@.to_multiset() == old(v)@.to_multiset(),
        forall|i: int, j: int|
            0 <= i <= j < final(v)@.len() ==> final(v)@[i].last_commit >= final(v)@[j].last_commit,
{
    broadcast use vstd::seq_lib::group_to_multiset_ensures;
    broadcast use vstd::multiset::group_multiset_axioms;

    let mut out: Vec<BranchInfo> = Vec::new();
    while v.len() > 0
        invariant
            out@.to_multiset().add(v@.to_multiset()) == old(v)@.to_multiset(),
            out@.len() + v@.len() == old(v)@.len(),
            forall|i: int, j: int|
                0 <= i <= j < out@.len() ==> out@[i].last_commit >= out@[j].last_commit,
            forall|i: int, j: int|
                0 <= i < out@.len() && 0 <= j < v@.len() ==> out@[i].last_commit
                    >= v@[j].last_commit,
        decreases v@.len(),
    {
        let mut m: usize = 0;
        let mut i: usize = 1;
        while i < v.len()
            invariant
                v@.len() > 0,
                m < i <= v@.len(),
                forall|j: int| 0 <= j < i ==> v@[m as int].last_commit >= (#[trigger] v@[j]).last_commit,
            decreases v@.len() - i,
        {
            if v[i].last_commit > v[m].last_commit {
                m = i;
            }
            i += 1;
        }
        let ghost v_before = v@;
        let ghost out_before = out@;
        let x = v.remove(m);
        out.push(x);
        proof {
            assert(v@ == v_before.remove(m as int));
            vstd::seq_lib::to_multiset_remove(v_before, m as int);
            assert(out@ == out_before.push(x));
            vstd::seq_lib::to_multiset_build(out_before, x);
            assert(v_before.to_multiset().count(x) > 0) by {
                v_before.to_multiset_ensures();
                assert(v_before.contains(x)) by {
                    assert(v_before[m as int] == x);
                }
            }
            assert(out@.to_multiset().add(v@.to_multiset()) =~= out_before.to_multiset().add(
                v_before.to_multiset(),
            ));
            assert forall|j: int|
                0 <= j < v@.len() implies x.last_commit >= (#[trigger] v@[j]).last_commit by {
                assert(v_before.remove(m as int) == v_before.subrange(0, m as int)
                    + v_before.subrange(m + 1, v_before.len() as int));
                if j < m {
                    assert(v@[j] == v_before[j]);
                } else {
                    assert(v@[j] == v_before[j + 1]);
                }
            }
            assert forall|i0: int, j0: int| #![trigger out@[i0], out@[j0]]
                0 <= i0 <= j0 < out@.len() implies out@[i0].last_commit
                >= out@[j0].last_commit by {
                if j0 == out@.len() - 1 && i0 < j0 {
                    assert(out@[i0] == out_before[i0]);
                }
            }
            assert forall|i0: int, j0: int| #![trigger out@[i0], v@[j0]]
                0 <= i0 < out@.len() && 0 <= j0 < v@.len() implies out@[i0].last_commit
                >= v@[j0].last_commit by {
                if i0 < out@.len() - 1 {
                    assert(v_before.remove(m as int) == v_before.subrange(0, m as int)
                        + v_before.subrange(m + 1, v_before.len() as int));
                    if j0 < m {
                        assert(v@[j0] == v_before[j0]);
                    } else {
                        assert(v@[j0] == v_before[j0 + 1]);
                    }
                } else {
                    assert(out@[i0] == x);
                }
            }
        }
    }
    *v = out;
}

/// File listings come in name order.
pub fn sort_strings(v: &mut Vec<String>)
    ensures
        final(v)@.len() == old(v)@.len(),
        final(v)@.to_multiset() == old(v)@.to_multiset(),
        forall|i: int, j: int| 0 <= i <= j < final(v)@.len() ==> lex_le(final(v)@[i]@, final(v)@[j]@),
{
    broadcast use vstd::seq_lib::group_to_multiset_ensures;
    broadcast use vstd::multiset::group_multiset_axioms;

    let mut out: Vec<String> = Vec::new();
    while v.len() > 0
        invariant
            out@.to_multiset().add(v@.to_multiset()) == old(v)@.to_multiset(),
            out@.len() + v@.len() == old(v)@.len(),
            forall|i: int, j: int| 0 <= i <= j < out@.len() ==> lex_le(out@[i]@, out@[j]@),
            forall|i: int, j: int| #![trigger out@[i], v@[j]]
                0 <= i < out@.len() && 0 <= j < v@.len() ==> lex_le(out@[i]@, v@[j]@),
        decreases v@.len(),
    {
        let mut m: usize = 0;
        let mut i: usize = 1;
        proof {
            crate::strutil::lemma_lex_le_refl(v@[0]@);
        }
        while i < v.len()
            invariant
                v@.len() > 0,
                m < i <= v@.len(),
                forall|j: int| 0 <= j < i ==> lex_le(v@[m as int]@, (#[trigger] v@[j])@),
            decreases v@.len() - i,
        {
            if crate::strutil::str_le(v[i].as_str(), v[m].as_str())
                && !crate::strutil::str_le(v[m].as_str(), v[i].as_str()) {
                proof {
                    crate::strutil::lemma_lex_le_refl(v@[i as int]@);
                    assert forall|j: int| 0 <= j < i + 1 implies lex_le(
                        v@[i as int]@,
                        (#[trigger] v@[j])@,
                    ) by {
                        if j < i {
                            crate::strutil::lemma_lex_le_trans(v@[i as int]@, v@[m as int]@, v@[j]@);
                        }
                    }
                }
                m = i;
            } else {
                proof {
                    crate::strutil::lemma_lex_le_total(v@[i as int]@, v@[m as int]@);
                }
            }
            i += 1;
        }
        let ghost v_before = v@;
        let ghost out_before = out@;
        let x = v.remove(m);
        out.push(x);
        proof {
            assert(v@ == v_before.remove(m as int));
            vstd::seq_lib::to_multiset_remove(v_before, m as int);
            assert(out@ == out_before.push(x));
            vstd::seq_lib::to_multiset_build(out_before, x);
            assert(v_before.to_multiset().count(x) > 0) by {
                v_before.to_multiset_ensures();
                assert(v_before.contains(x)) by {
                    assert(v_before[m as int] == x);
                }
            }
            assert(out@.to_multiset().add(v@.to_multiset()) =~= out_before.to_multiset().add(
                v_before.to_multiset(),
            ));
            assert forall|j: int| 0 <= j < v@.len() implies lex_le(x@, (#[trigger] v@[j])@) by {
                assert(v_before.remove(m as int) == v_before.subrange(0, m as int)
                    + v_before.subrange(m + 1, v_before.len() as int));
                if j < m {
                    assert(v@[j] == v_before[j]);
                } else {
                    assert(v@[j] == v_before[j + 1]);
                }
            }
            assert forall|i0: int, j0: int| #![trigger out@[i0], out@[j0]]
                0 <= i0 <= j0 < out@.len() implies lex_le(out@[i0]@, out@[j0]@) by {
                if j0 == out@.len() - 1 && i0 < j0 {
                    assert(out@[i0] == out_before[i0]);
                }
            }
            assert forall|i0: int, j0: int| #![trigger out@[i0], v@[j0]]
                0 <= i0 < out@.len() && 0 <= j0 < v@.len() implies lex_le(
                out@[i0]@,
                v@[j0]@,
            ) by {
                if i0 < out@.len() - 1 {
                    assert(v_before.remove(m as int) == v_before.subrange(0, m as int)
                        + v_before.subrange(m + 1, v_before.len() as int));
                    if j0 < m {
                        assert(v@[j0] == v_before[j0]);
                    } else {
                        assert(v@[j0] == v_before[j0 + 1]);
                    }
                } else {
                    assert(out@[i0] == x);
                }
            }
        }
    }
    *v = out;
}

} // verus!
